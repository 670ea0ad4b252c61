use charcoal_dict::app::config::Normal;
use charcoal_dict::word::frontend::Style;
use charcoal_dict::word::http::{append_chunk, ResponseError, MAX_BYTES};
use charcoal_dict::{Answer, SingleEntry};

fn entry() -> SingleEntry {
    SingleEntry {
        pronunciation: vec![("英".into(), "[həˈləʊ]".into())],
        brief: vec!["int. 喂".into()],
        variants: vec!["复数 hellos".into()],
        authority: vec![],
        sentence: vec![("Hello!".into(), "你好！".into())],
    }
}

fn plain(pieces: &[(Style, String)]) -> String {
    pieces.iter().map(|(_, t)| t.as_str()).collect()
}

#[test]
fn entries_render_every_part_in_order() {
    let all = Normal { with_pronunciation: true, with_variants: true, with_sentence: true };
    let pieces = entry().render("hello", &all);
    assert_eq!(
        plain(&pieces),
        "hello\n英 [həˈləʊ]\t\nint. 喂\n复数 hellos\n1. Hello!\n   你好！\n"
    );
    assert_eq!(pieces[0], (Style::BrightRed, "hello".to_owned()));
    assert_eq!(pieces[3], (Style::Cyan, "[həˈləʊ]".to_owned()));
}

#[test]
fn normal_mode_switches_hide_parts() {
    let none = Normal { with_pronunciation: false, with_variants: false, with_sentence: false };
    assert_eq!(plain(&entry().render("hello", &none)), "hello\nint. 喂\n");
}

#[test]
fn examples_are_numbered_from_one_and_indented() {
    let mut e = entry();
    e.sentence = (0..10).map(|i| (format!("o{i}"), format!("t{i}"))).collect();
    let only = Normal { with_pronunciation: false, with_variants: false, with_sentence: true };
    let text = plain(&e.render("w", &only));
    assert!(text.contains("1. o0\n   t0\n"));
    assert!(text.contains("10. o9\n    t9\n"));
}

#[test]
fn empty_entries_are_not_found() {
    let empty = SingleEntry {
        pronunciation: vec![],
        brief: vec![],
        variants: vec![],
        authority: vec![],
        sentence: vec![],
    };
    assert!(empty.not_found());
    assert!(!entry().not_found());
}

#[test]
fn bodies_are_limited_in_size() {
    let mut body = vec![1u8; 10];
    assert_eq!(append_chunk(&mut body, &[2, 3]), Ok(()));
    assert_eq!(body, vec![1, 1, 1, 1, 1, 1, 1, 1, 1, 1, 2, 3]);
    let mut big = vec![0u8; MAX_BYTES - 1];
    assert_eq!(append_chunk(&mut big, &[1, 2]), Err(ResponseError::TooLarge));
    assert_eq!(big.len(), MAX_BYTES - 1);
    assert_eq!(append_chunk(&mut big, &[1]), Ok(()));
    assert_eq!(big.len(), MAX_BYTES);
}
