use hyperlink::text::{bytes_eq, split_srcset, str_eq, try_normalize_href_value};

#[test]
fn srcset_split_law() {
    assert_eq!(split_srcset("a 1x, b 2x, , c"), vec!["a", "b", "c"]);
}

#[test]
fn srcset_of_nothing_has_no_urls() {
    assert_eq!(split_srcset(""), Vec::<&str>::new());
    assert_eq!(split_srcset(" "), Vec::<&str>::new());
    assert_eq!(split_srcset(",,,"), Vec::<&str>::new());
    assert_eq!(split_srcset(" , \t,\n"), Vec::<&str>::new());
}

#[test]
fn srcset_takes_the_first_token_of_each_candidate() {
    assert_eq!(split_srcset("b.png 1x, c.png 2x"), vec!["b.png", "c.png"]);
    assert_eq!(split_srcset("one"), vec!["one"]);
    assert_eq!(split_srcset("one,two"), vec!["one", "two"]);
    assert_eq!(split_srcset("  one   100w 2x  ,\ttwo"), vec!["one", "two"]);
    assert_eq!(split_srcset("one,"), vec!["one"]);
    assert_eq!(split_srcset(",one"), vec!["one"]);
}

#[test]
fn srcset_splits_on_unicode_whitespace() {
    assert_eq!(split_srcset("\u{a0}x\u{2003}y , ,,z"), vec!["x", "z"]);
    assert_eq!(split_srcset("\u{e9}t\u{e9} 1x, \u{4e2d}\u{6587}"), vec!["\u{e9}t\u{e9}", "\u{4e2d}\u{6587}"]);
}

#[test]
fn srcset_does_not_spare_data_urls() {
    assert_eq!(
        split_srcset("data:image/png;base64,AAAA 1x, b.png 2x"),
        vec!["data:image/png;base64", "AAAA", "b.png"]
    );
}

#[test]
fn normalising_trims_both_ends() {
    assert_eq!(try_normalize_href_value("  a b \n"), "a b");
    assert_eq!(try_normalize_href_value("a"), "a");
    assert_eq!(try_normalize_href_value(""), "");
    assert_eq!(try_normalize_href_value(" \t\n"), "");
    assert_eq!(try_normalize_href_value("\u{a0}x\u{3000}"), "x");
}

#[test]
fn texts_are_equal_when_their_bytes_are() {
    assert!(str_eq("href", "href"));
    assert!(str_eq("", ""));
    assert!(!str_eq("href", "hre"));
    assert!(!str_eq("href", "hreg"));
    assert!(!str_eq("", "a"));
    assert!(str_eq("\u{e9}", "\u{e9}"));
    assert!(!str_eq("\u{e9}", "e"));
    assert!(bytes_eq(b"abc", b"abc"));
    assert!(!bytes_eq(b"abc", b"abd"));
    assert!(!bytes_eq(b"abc", b"ab"));
    assert!(bytes_eq(b"", b""));
}
