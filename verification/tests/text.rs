use dapla::text::{characters, concatenate, join_path, same_text, text_precedes};

#[test]
fn concat_puts_second_after_first() {
    assert_eq!(concatenate("ab", "cd"), "abcd");
    assert_eq!(concatenate("", "x"), "x");
    assert_eq!(concatenate("x", ""), "x");
}

#[test]
fn join_path_puts_one_slash_between() {
    assert_eq!(join_path("/srv/daps", "chat"), "/srv/daps/chat");
    assert_eq!(join_path("daps", "static"), "daps/static");
}

#[test]
fn same_text_compares_characters() {
    assert!(same_text("dapla", "dapla"));
    assert!(same_text("", ""));
    assert!(!same_text("dapla", "dapl"));
    assert!(!same_text("dapla", "dapLa"));
    assert!(same_text("grüße", "grüße"));
    assert!(!same_text("grüße", "grusse"));
}

#[test]
fn text_precedes_is_dictionary_order() {
    assert!(text_precedes("alpha", "beta"));
    assert!(!text_precedes("beta", "alpha"));
    assert!(text_precedes("alpha", "alpha"));
    assert!(text_precedes("", "a"));
    assert!(!text_precedes("a", ""));
    assert!(text_precedes("chat", "chats"));
    assert!(!text_precedes("chats", "chat"));
    assert!(text_precedes("Z", "a"));
    assert!(text_precedes("a1", "a2"));
}

#[test]
fn text_precedes_agrees_with_the_order_of_str() {
    let words = ["", "a", "ab", "b", "B", "chat", "chats", "é", "zeta", "日本"];
    for a in words {
        for b in words {
            assert_eq!(text_precedes(a, b), a <= b, "{:?} {:?}", a, b);
        }
    }
}

#[test]
fn text_precedes_is_total() {
    let words = ["x", "xy", "y", ""];
    for a in words {
        for b in words {
            assert!(text_precedes(a, b) || text_precedes(b, a));
        }
    }
}

#[test]
fn characters_are_the_code_points_in_order() {
    assert_eq!(characters("dap"), vec!['d', 'a', 'p']);
    assert_eq!(characters(""), Vec::<char>::new());
    assert_eq!(characters("grüße 日本"), vec!['g', 'r', 'ü', 'ß', 'e', ' ', '日', '本']);
}
