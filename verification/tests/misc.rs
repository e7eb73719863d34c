use renim::arch::pic::{InterruptIndex, PIC1_OFFSET, PIC2_OFFSET};
use renim::display::colour::Colour;
use renim::test_framework::__UnitTest;

#[test]
fn colour_new_keeps_components() {
    let c = Colour::new(1, 2, 3);
    assert_eq!((c.r, c.g, c.b), (1, 2, 3));
    assert_eq!(Colour::yellow(), Colour::new(0xFF, 0xFF, 0));
    assert_eq!(Colour::cyan(), Colour::new(0, 0xFF, 0xFF));
    assert_eq!(Colour::black(), Colour::new(0, 0, 0));
}

#[test]
fn timer_interrupt_vector() {
    assert_eq!(InterruptIndex::Timer.as_u8(), 0x20);
    assert_eq!(InterruptIndex::Timer.as_usize(), 32);
    assert_eq!(PIC1_OFFSET, 0x20);
    assert_eq!(PIC2_OFFSET, 0x28);
}

fn sample() {}

#[test]
fn unit_test_descriptor() {
    let t = __UnitTest::new(sample as fn(), "sample-test");
    assert_eq!(t.name, "sample-test");
    (t.func)();
}

use renim::test_framework::{test_report_name, unit_test_function, UnitTestError, UnitToken};

fn ident(s: &str) -> UnitToken {
    UnitToken::Ident(s.chars().collect())
}

fn body() -> UnitToken {
    UnitToken::Other
}

#[test]
fn unit_attribute_finds_function_name() {
    let tokens = vec![ident("pub"), ident("fn"), ident("breakpoint_exception"), UnitToken::EmptyParens, body()];
    let name = unit_test_function(&tokens).unwrap();
    assert_eq!(name.iter().collect::<String>(), "breakpoint_exception");
    let shown: String = test_report_name(&name).iter().collect();
    assert_eq!(shown, "breakpoint-exception");
}

#[test]
fn unit_attribute_rejects_generic_function() {
    let tokens = vec![ident("fn"), ident("t"), UnitToken::Punct('<'), ident("T"), UnitToken::Punct('>'), body()];
    assert_eq!(unit_test_function(&tokens), Err(UnitTestError::Generic));
}

#[test]
fn unit_attribute_rejects_malformed_items() {
    // parameters
    let tokens = vec![ident("fn"), ident("t"), UnitToken::Other, body()];
    assert_eq!(unit_test_function(&tokens), Err(UnitTestError::Format));
    // no function at all
    let tokens = vec![ident("struct"), ident("S"), body()];
    assert_eq!(unit_test_function(&tokens), Err(UnitTestError::Format));
    // `fn` as the last token
    let tokens = vec![ident("fn")];
    assert_eq!(unit_test_function(&tokens), Err(UnitTestError::Format));
    // `fn` not followed by a name
    let tokens = vec![ident("fn"), UnitToken::EmptyParens];
    assert_eq!(unit_test_function(&tokens), Err(UnitTestError::Format));
    // a name and nothing after it
    let tokens = vec![ident("fn"), ident("t")];
    assert_eq!(unit_test_function(&tokens), Err(UnitTestError::Format));
    // another punctuation after the name
    let tokens = vec![ident("fn"), ident("t"), UnitToken::Punct('!')];
    assert_eq!(unit_test_function(&tokens), Err(UnitTestError::Format));
}

#[test]
fn report_name_keeps_other_characters() {
    let name: Vec<char> = "a_b__c9".chars().collect();
    let shown: String = test_report_name(&name).iter().collect();
    assert_eq!(shown, "a-b--c9");
}
