use mongodex::text::{join2, join3, optional, pad_right, split_all, split_last, str_eq, chars_of};

#[test]
fn split_all_on_commas() {
    assert_eq!(split_all("a,b", ','), vec!["a".to_string(), "b".to_string()]);
    assert_eq!(split_all("one", ','), vec!["one".to_string()]);
}

#[test]
fn split_all_keeps_empty_pieces() {
    assert_eq!(split_all("", ','), vec!["".to_string()]);
    assert_eq!(split_all("a,", ','), vec!["a".to_string(), "".to_string()]);
    assert_eq!(split_all(",,", ','), vec!["".to_string(), "".to_string(), "".to_string()]);
}

#[test]
fn split_all_then_join_gives_the_text_back() {
    for s in ["h1:1,h2:2,h3", "", ",", "x,,y", "no-commas"] {
        assert_eq!(split_all(s, ',').join(","), s);
    }
}

#[test]
fn split_last_uses_last_separator() {
    assert_eq!(split_last("a@b@c", '@'), Some(("a@b".to_string(), "c".to_string())));
    assert_eq!(split_last("db@conn", '@'), Some(("db".to_string(), "conn".to_string())));
    assert_eq!(split_last("@", '@'), Some(("".to_string(), "".to_string())));
    assert_eq!(split_last("plain", '@'), None);
    assert_eq!(split_last("", '@'), None);
}

#[test]
fn pad_right_pads_to_width() {
    assert_eq!(pad_right("ab", 4), "ab  ");
    assert_eq!(pad_right("", 3), "   ");
    assert_eq!(pad_right("abcdef", 4), "abcdef");
    assert_eq!(pad_right("abcd", 4), "abcd");
}

#[test]
fn pad_right_counts_characters_not_bytes() {
    assert_eq!(pad_right("é", 3), "é  ");
    assert_eq!(pad_right("é", 3), format!("{: <3}", "é"));
    assert_eq!(pad_right("Name", 10), format!("{: <10}", "Name"));
}

#[test]
fn concat_and_compare() {
    assert_eq!(join2("--host=", "h"), "--host=h");
    assert_eq!(join3("a", "b", "c"), "abc");
    assert!(str_eq("x", "x"));
    assert!(!str_eq("x", "y"));
    assert_eq!(chars_of("hé"), vec!['h', 'é']);
}

#[test]
fn optional_treats_empty_as_none() {
    assert_eq!(optional(String::new()), None);
    assert_eq!(optional("rs0".to_string()), Some("rs0".to_string()));
}

#[test]
fn split_pieces_hold_no_separator() {
    for s in ["a,b,,c", ",", "", "abc"] {
        for piece in split_all(s, ',') {
            assert!(!piece.contains(','));
        }
    }
}

#[test]
fn split_last_pieces_rebuild_the_text() {
    for s in ["a@b@c", "@x", "y@", "@"] {
        let (before, after) = split_last(s, '@').expect("has a separator");
        assert_eq!(format!("{}@{}", before, after), s);
        assert!(!after.contains('@'));
    }
}
