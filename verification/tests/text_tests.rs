use p2p_chat::text::{is_blank, split_list, switch_enabled, white_space};

#[test]
fn unset_switch_is_on() {
    assert!(switch_enabled(None));
}

#[test]
fn switch_reads_true_and_false() {
    assert!(switch_enabled(Some("true")));
    assert!(!switch_enabled(Some("false")));
}

#[test]
fn switch_with_other_text_is_off() {
    assert!(!switch_enabled(Some("TRUE")));
    assert!(!switch_enabled(Some("yes")));
    assert!(!switch_enabled(Some("")));
    assert!(!switch_enabled(Some(" true")));
}

#[test]
fn blank_lines() {
    assert!(is_blank(""));
    assert!(is_blank("   "));
    assert!(is_blank("\t\r\n"));
    assert!(is_blank("\u{3000}\u{a0}\u{2009}"));
    assert!(!is_blank(" hello "));
    assert!(!is_blank("\u{200b}"));
}

#[test]
fn blank_agrees_with_trim() {
    for line in ["", " ", "a", " a", "\u{85}", "\u{1680}x", "\u{feff}", "\u{202f}\u{205f}"] {
        assert_eq!(is_blank(line), line.trim().is_empty(), "line {:?}", line);
    }
}

#[test]
fn white_space_agrees_with_std() {
    for code in 0u32..0x3100 {
        if let Some(c) = char::from_u32(code) {
            assert_eq!(white_space(c), c.is_whitespace(), "char {:#x}", code);
        }
    }
}

#[test]
fn split_two_entries() {
    assert_eq!(split_list("/ip4/1.2.3.4/tcp/1,/ip4/5.6.7.8/tcp/2"), vec!["/ip4/1.2.3.4/tcp/1".to_string(), "/ip4/5.6.7.8/tcp/2".to_string()]);
}

#[test]
fn split_keeps_empty_entries() {
    assert_eq!(split_list(""), vec![String::new()]);
    assert_eq!(split_list(",a,"), vec![String::new(), "a".to_string(), String::new()]);
    assert_eq!(split_list("é,ü"), vec!["é".to_string(), "ü".to_string()]);
}

#[test]
fn split_then_join_gives_text_back() {
    for text in ["", ",", "a,b,,c", "no commas", ",,x,"] {
        let pieces = split_list(text);
        assert_eq!(pieces.join(","), text);
        assert!(pieces.iter().all(|p| !p.contains(',')));
        let expected: Vec<String> = text.split(',').map(|s| s.to_string()).collect();
        assert_eq!(pieces, expected);
    }
}
