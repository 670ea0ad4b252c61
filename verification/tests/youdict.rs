use charcoal_dict::word::backend::youdict::{paragraph, SelectError};
use charcoal_dict::word::backend::{Sen, Sentence};
use charcoal_dict::word::QueryYoudict;
use charcoal_dict::{Answer, ExactQuery, Lang};

const QINGXI: &str = r#"<html><body>
<div id="phrsListTab"><div class="trans-container"><ul><li>adj. 清楚的</li></ul></div></div>
<div id="bilingual" class="trans-container"><ul>
<li><p><span>从</span><span>空中</span><span>看去</span><span>，</span><span>那座</span><span>庙宇</span><span>清晰</span><span>可辨</span><span>。</span></p>
<p><span>The</span> <span>temple</span> <span>was</span> <span>clearly</span> <span>visible</span> <span>from</span> <span>the</span> <span>air</span>.</p></li>
<li><p><span>她</span><span>给了</span><span>我</span><span>清晰</span><span>而</span><span>准确</span><span>的</span><span>指示</span><span>。</span></p>
<p><span>She</span> <span>gave</span> <span>me</span> <span>clear</span> <span>and</span>
    <span>precise</span> <span>directions</span>.</p></li>
<li><p>电话里的声音<b>清晰</b>洪亮。</p>
<p>The voice on the phone was <b>clear</b> and strong.</p></li>
</ul></div>
</body></html>"#;

#[test]
fn chinese_examples_preserve_spacing_regardless_of_configured_language() {
    let expected = vec![
        (
            "从空中看去，那座庙宇清晰可辨。".to_owned(),
            "The temple was clearly visible from the air.".to_owned(),
        ),
        (
            "她给了我清晰而准确的指示。".to_owned(),
            "She gave me clear and precise directions.".to_owned(),
        ),
        (
            "电话里的声音清晰洪亮。".to_owned(),
            "The voice on the phone was clear and strong.".to_owned(),
        ),
    ];
    for lang in [Lang::Eng, Lang::Cmn, Lang::Jpn, Lang::Kor] {
        let query = ExactQuery::new("清晰".to_owned(), lang, false).unwrap();
        let entry = QueryYoudict::select(QINGXI, &query).unwrap();
        assert_eq!(entry.sentence, expected);
    }
}

#[test]
fn english_examples_preserve_inline_words_punctuation_and_mixed_text() {
    let html = r#"<li>
                <p>
                    The <b>clear</b>est <span>sign</span>:&#9; "<b>你好</b>" (it's <b>clear</b>).
                </p>
                <p>最<b>清晰</b>的标志：<span>Hello world</span>。</p>
            </li>"#;
    let query = ExactQuery::new("clear".to_owned(), Lang::Eng, false).unwrap();
    let pair = Sen::select(html, &query).unwrap();
    assert_eq!(pair.0, "The clearest sign: \"你好\" (it's clear).");
    assert_eq!(pair.1, "最清晰的标志：Hello world。");
}

#[test]
fn incomplete_examples_are_skipped() {
    let html = r#"<div id="bilingual" class="trans-container"><li><p>Incomplete</p></li></div>"#;
    let query = ExactQuery::new("clear".to_owned(), Lang::Eng, false).unwrap();
    assert!(Sentence::select(html, &query).unwrap().is_empty());
}

#[test]
fn examples_need_an_original_and_a_translation() {
    let query = ExactQuery::new("clear".to_owned(), Lang::Eng, false).unwrap();
    assert_eq!(Sen::select("<div>none</div>", &query), Err(SelectError::NoOriginal));
    assert_eq!(Sen::select("<p>one</p>", &query), Err(SelectError::NoTranslation));
}

const PAGE: &str = r#"<html><body>
<span class="pronounce">英
    <span class="phonetic">[klɪə(r)]</span></span>
<span class="pronounce">美<span class="phonetic">[klɪr]</span></span>
<span class="pronounce">only one</span>
<div id="phrsListTab"><div class="trans-container">
  <ul><li>adj.   清楚的；  <b>晴朗的</b></li><li>  v. 清除 </li></ul>
  <p>[ 比较级 clearer
      最高级 clearest ]</p>
  <p>   </p>
</div></div>
</body></html>"#;

#[test]
fn pages_give_pronunciations_meanings_and_forms() {
    let query = ExactQuery::new("clear".to_owned(), Lang::Eng, false).unwrap();
    let entry = QueryYoudict::select(PAGE, &query).unwrap();
    assert_eq!(
        entry.pronunciation,
        vec![
            ("英".to_owned(), "[klɪə(r)]".to_owned()),
            ("美".to_owned(), "[klɪr]".to_owned()),
        ]
    );
    assert_eq!(entry.brief, vec!["adj.   清楚的；晴朗的".to_owned(), "v. 清除".to_owned()]);
    assert_eq!(entry.variants, vec!["[ 比较级 clearer 最高级 clearest ]".to_owned()]);
    assert!(entry.authority.is_empty());
    assert!(entry.sentence.is_empty());
    assert!(!entry.not_found());
}

#[test]
fn empty_pages_are_not_found() {
    let query = ExactQuery::new("qwzx".to_owned(), Lang::Eng, false).unwrap();
    let entry = QueryYoudict::select("<html><body></body></html>", &query).unwrap();
    assert!(entry.not_found());
}

#[test]
fn paragraphs_collapse_whitespace() {
    let texts = vec!["  a \t".to_owned(), "b\n\n c".to_owned(), " ".to_owned()];
    assert_eq!(paragraph(&texts), "a b c");
    assert_eq!(paragraph(&vec![]), "");
}

#[test]
fn dictionary_address_names_the_word() {
    let query = ExactQuery::new("hello world".to_owned(), Lang::Eng, false).unwrap();
    let url = QueryYoudict::new().url(&query).unwrap();
    assert_eq!(url, "http://dict.youdao.com/search?q=hello%20world");
}
