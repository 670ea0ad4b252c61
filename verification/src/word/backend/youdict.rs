//! Reading a Youdao dictionary page: pronunciations, brief meanings, word forms and
//! bilingual example sentences.
//!
//! `scraper` parses the page and finds the elements; what is made of their text is
//! this module's own logic.
use vstd::prelude::*;

use super::QueryYoudict;
use crate::text::{self, collapse_ws, join_strings, push_string, split_lines, trim_all};
use crate::word::frontend::SingleEntry;
use crate::word::{ExactQuery, Question};

verus! {

/// Names the text nodes that `scraper` finds: for each element of the document parsed
/// from `html` that matches `selector` (searched below the root element, in document
/// order), the element's descendant text nodes in order; `None` where `selector` does
/// not parse.
pub uninterp spec fn html_select_texts(html: Seq<char>, selector: Seq<char>) -> Option<
    Seq<Seq<Seq<char>>>,
>;

/// Names the text nodes that `scraper` finds one level deeper: for each element matching
/// `outer`, for each element below it matching `inner`, that element's text nodes;
/// `None` where a selector does not parse.
pub uninterp spec fn html_select_nested_texts(
    html: Seq<char>,
    outer: Seq<char>,
    inner: Seq<char>,
) -> Option<Seq<Seq<Seq<Seq<char>>>>>;

/// Names the serialization of the URL that `url::Url::parse` makes of `input`, or `None`
/// where it does not parse.
pub uninterp spec fn parsed_url(input: Seq<char>) -> Option<Seq<char>>;

/// Calls `scraper::Selector::parse`, `scraper::Html::parse_document`,
/// `ElementRef::select` on the root element and `ElementRef::text`. Claims that the
/// texts are `html_select_texts` of the arguments.
#[verifier::external_body]
fn select_texts(html: &str, selector: &str) -> (r: Option<Vec<Vec<String>>>)
    ensures
        match r {
            Some(v) => html_select_texts(html@, selector@) == Some(v.deep_view()),
            None => html_select_texts(html@, selector@) is None,
        },
{
    let selector = scraper::Selector::parse(selector).ok()?;
    let doc = scraper::Html::parse_document(html);
    let mut found = Vec::new();
    for element in doc.root_element().select(&selector) {
        found.push(element.text().map(str::to_owned).collect());
    }
    Some(found)
}

/// Calls the same `scraper` functions as `select_texts`, selecting `inner` below each
/// element that matches `outer`. Claims that the texts are `html_select_nested_texts`
/// of the arguments.
#[verifier::external_body]
fn select_nested_texts(html: &str, outer: &str, inner: &str) -> (r: Option<Vec<Vec<Vec<String>>>>)
    ensures
        match r {
            Some(v) => html_select_nested_texts(html@, outer@, inner@) == Some(v.deep_view()),
            None => html_select_nested_texts(html@, outer@, inner@) is None,
        },
{
    let outer = scraper::Selector::parse(outer).ok()?;
    let inner = scraper::Selector::parse(inner).ok()?;
    let doc = scraper::Html::parse_document(html);
    let mut found = Vec::new();
    for element in doc.root_element().select(&outer) {
        let mut group = Vec::new();
        for paragraph in element.select(&inner) {
            group.push(paragraph.text().map(str::to_owned).collect());
        }
        found.push(group);
    }
    Some(found)
}

/// Calls `url::Url::parse` and serializes the URL. Claims that the result is
/// `parsed_url(input)`.
#[verifier::external_body]
fn parse_url(input: &str) -> (r: Option<String>)
    ensures
        match r {
            Some(s) => parsed_url(input@) == Some(s@),
            None => parsed_url(input@) is None,
        },
{
    match url::Url::parse(input) {
        Ok(url) => Some(url.into()),
        Err(_) => None,
    }
}

/// Why a page or a part of it could not be read.
#[derive(Clone, Copy, Debug, PartialEq, Eq, Structural)]
pub enum SelectError {
    /// A selector did not parse.
    InvalidSelector,
    /// An example has no original sentence.
    NoOriginal,
    /// An example has no translation.
    NoTranslation,
}

/// The pronunciations: for each element, its first two non-blank texts (region and
/// phonetics), where it has two.
pub open spec fn pronunciation_of(elems: Seq<Seq<Seq<char>>>) -> Seq<(Seq<char>, Seq<char>)>
    decreases elems.len(),
{
    if elems.len() == 0 {
        Seq::empty()
    } else {
        let rest = pronunciation_of(elems.drop_last());
        let t = text::trimmed_nonempty(elems.last());
        if t.len() >= 2 {
            rest.push((t[0], t[1]))
        } else {
            rest
        }
    }
}

/// The brief meanings: for each element, its non-blank texts, trimmed and run together.
pub open spec fn brief_of(elems: Seq<Seq<Seq<char>>>) -> Seq<Seq<char>> {
    elems.map_values(|e: Seq<Seq<char>>| text::concat(text::trimmed_nonempty(e)))
}

/// One text node of a word-form paragraph: its non-blank lines, trimmed and joined by
/// single spaces.
pub open spec fn text_line(t: Seq<char>) -> Seq<char> {
    text::join(text::trimmed_nonempty(text::split_on(t, '\n')), seq![' '])
}

/// The non-empty lines of one word-form element.
pub open spec fn element_variants(texts: Seq<Seq<char>>) -> Seq<Seq<char>>
    decreases texts.len(),
{
    if texts.len() == 0 {
        Seq::empty()
    } else {
        let rest = element_variants(texts.drop_last());
        if text_line(texts.last()).len() > 0 {
            rest.push(text_line(texts.last()))
        } else {
            rest
        }
    }
}

/// The word forms: the non-empty lines of all elements, in order.
pub open spec fn variants_of(elems: Seq<Seq<Seq<char>>>) -> Seq<Seq<char>>
    decreases elems.len(),
{
    if elems.len() == 0 {
        Seq::empty()
    } else {
        variants_of(elems.drop_last()) + element_variants(elems.last())
    }
}

/// A paragraph's text: its text nodes run together, whitespace runs collapsed to single
/// spaces and stripped at both ends.
pub open spec fn paragraph_text(texts: Seq<Seq<char>>) -> Seq<char> {
    text::collapse_whitespace(text::concat(texts))
}

/// An example's text keeps every non-whitespace character of its paragraph's text
/// nodes, in order, including the boundaries that inline elements made; only
/// whitespace is collapsed, to single spaces between words.
pub proof fn lemma_paragraph_text(texts: Seq<Seq<char>>)
    ensures
        text::single_spaced(paragraph_text(texts)),
        text::strip_whitespace(paragraph_text(texts)) == text::strip_whitespace(
            text::concat(texts),
        ),
{
    text::lemma_collapsed_is_single_spaced(text::concat(texts));
    text::lemma_collapse_keeps_text(text::concat(texts));
}

/// An example from its paragraphs: the original and its translation, where there are
/// two paragraphs.
pub open spec fn sentence_pair(paras: Seq<Seq<Seq<char>>>) -> Result<
    (Seq<char>, Seq<char>),
    SelectError,
> {
    if paras.len() == 0 {
        Err(SelectError::NoOriginal)
    } else if paras.len() == 1 {
        Err(SelectError::NoTranslation)
    } else {
        Ok((paragraph_text(paras[0]), paragraph_text(paras[1])))
    }
}

/// The examples: one for each group of paragraphs that makes one, in order.
pub open spec fn sentences_of(groups: Seq<Seq<Seq<Seq<char>>>>) -> Seq<(Seq<char>, Seq<char>)>
    decreases groups.len(),
{
    if groups.len() == 0 {
        Seq::empty()
    } else {
        let rest = sentences_of(groups.drop_last());
        match sentence_pair(groups.last()) {
            Ok(pair) => rest.push(pair),
            Err(_) => rest,
        }
    }
}

/// The word forms of one text node: its line, unless that line is empty.
pub proof fn lemma_element_variants_single(t: Seq<char>)
    ensures
        element_variants(seq![t]) == (if text_line(t).len() > 0 {
            seq![text_line(t)]
        } else {
            Seq::<Seq<char>>::empty()
        }),
{
    let one = seq![t];
    assert(one.drop_last() =~= Seq::<Seq<char>>::empty());
    assert(element_variants(one.drop_last()) == Seq::<Seq<char>>::empty());
    assert(one.last() == t);
    assert(Seq::<Seq<char>>::empty().push(text_line(t)) =~= seq![text_line(t)]);
}

/// The word forms of an element whose text nodes are those of `a` and then those of
/// `b` are the forms of `a` followed by the forms of `b`.
pub proof fn lemma_element_variants_append(a: Seq<Seq<char>>, b: Seq<Seq<char>>)
    ensures
        element_variants(a + b) == element_variants(a) + element_variants(b),
    decreases b.len(),
{
    if b.len() == 0 {
        assert(a + b =~= a);
        assert(element_variants(a) + element_variants(b) =~= element_variants(a));
    } else {
        lemma_element_variants_append(a, b.drop_last());
        assert((a + b).drop_last() =~= a + b.drop_last());
        assert((a + b).last() == b.last());
        let l = text_line(b.last());
        assert((element_variants(a) + element_variants(b.drop_last())).push(l) =~= element_variants(
            a,
        ) + element_variants(b.drop_last()).push(l));
    }
}

/// The word forms cover every matched element, in document order: the forms of
/// `a ++ b` are the forms of `a` followed by the forms of `b`.
pub proof fn lemma_variants_of_append(a: Seq<Seq<Seq<char>>>, b: Seq<Seq<Seq<char>>>)
    ensures
        variants_of(a + b) == variants_of(a) + variants_of(b),
    decreases b.len(),
{
    if b.len() == 0 {
        assert(a + b =~= a);
        assert(variants_of(a) + variants_of(b) =~= variants_of(a));
    } else {
        lemma_variants_of_append(a, b.drop_last());
        assert((a + b).drop_last() =~= a + b.drop_last());
        assert((a + b).last() == b.last());
        assert(variants_of(a) + variants_of(b.drop_last()) + element_variants(b.last())
            =~= variants_of(a) + (variants_of(b.drop_last()) + element_variants(b.last())));
    }
}

/// The word forms of a single element are that element's own forms.
pub proof fn lemma_variants_of_single(e: Seq<Seq<char>>)
    ensures
        variants_of(seq![e]) == element_variants(e),
{
    let one = seq![e];
    assert(one.drop_last() =~= Seq::<Seq<Seq<char>>>::empty());
    assert(variants_of(one.drop_last()) == Seq::<Seq<char>>::empty());
    assert(one.last() == e);
    assert(Seq::<Seq<char>>::empty() + element_variants(e) =~= element_variants(e));
}

/// The pronunciations of the elements of `a ++ b` are those of `a` followed by those
/// of `b`.
pub proof fn lemma_pronunciation_of_append(a: Seq<Seq<Seq<char>>>, b: Seq<Seq<Seq<char>>>)
    ensures
        pronunciation_of(a + b) == pronunciation_of(a) + pronunciation_of(b),
    decreases b.len(),
{
    if b.len() == 0 {
        assert(a + b =~= a);
        assert(pronunciation_of(a) + pronunciation_of(b) =~= pronunciation_of(a));
    } else {
        lemma_pronunciation_of_append(a, b.drop_last());
        assert((a + b).drop_last() =~= a + b.drop_last());
        assert((a + b).last() == b.last());
        let t = text::trimmed_nonempty(b.last());
        if t.len() >= 2 {
            assert((pronunciation_of(a) + pronunciation_of(b.drop_last())).push((t[0], t[1]))
                =~= pronunciation_of(a) + pronunciation_of(b.drop_last()).push((t[0], t[1])));
        }
    }
}

/// One element gives a pronunciation exactly when it has at least two non-blank
/// texts: the first is the region, the second the phonetics.
pub proof fn lemma_pronunciation_of_single(e: Seq<Seq<char>>)
    ensures
        ({
            let t = text::trimmed_nonempty(e);
            pronunciation_of(seq![e]) == (if t.len() >= 2 {
                seq![(t[0], t[1])]
            } else {
                Seq::<(Seq<char>, Seq<char>)>::empty()
            })
        }),
{
    let one = seq![e];
    assert(one.drop_last() =~= Seq::<Seq<Seq<char>>>::empty());
    assert(pronunciation_of(one.drop_last()) == Seq::<(Seq<char>, Seq<char>)>::empty());
    assert(one.last() == e);
    let t = text::trimmed_nonempty(e);
    if t.len() >= 2 {
        assert(Seq::<(Seq<char>, Seq<char>)>::empty().push((t[0], t[1])) =~= seq![(t[0], t[1])]);
    }
}

/// One group of paragraphs gives one example when it makes one, and none otherwise.
pub proof fn lemma_sentences_of_single(g: Seq<Seq<Seq<char>>>)
    ensures
        sentences_of(seq![g]) == (match sentence_pair(g) {
            Ok(pair) => seq![pair],
            Err(_) => Seq::<(Seq<char>, Seq<char>)>::empty(),
        }),
{
    let one = seq![g];
    assert(one.drop_last() =~= Seq::<Seq<Seq<Seq<char>>>>::empty());
    assert(sentences_of(one.drop_last()) == Seq::<(Seq<char>, Seq<char>)>::empty());
    assert(one.last() == g);
    match sentence_pair(g) {
        Ok(pair) => {
            assert(Seq::<(Seq<char>, Seq<char>)>::empty().push(pair) =~= seq![pair]);
        },
        Err(_) => {},
    }
}

/// Without paragraphs there is no original; with one there is no translation; with
/// at least two the example is the text of the first paragraph and of the second, and
/// paragraphs after those two change nothing.
pub proof fn lemma_sentence_pair_first_two(
    p0: Seq<Seq<char>>,
    p1: Seq<Seq<char>>,
    more: Seq<Seq<Seq<char>>>,
)
    ensures
        sentence_pair(Seq::empty()) == Err::<(Seq<char>, Seq<char>), SelectError>(
            SelectError::NoOriginal,
        ),
        sentence_pair(seq![p0]) == Err::<(Seq<char>, Seq<char>), SelectError>(
            SelectError::NoTranslation,
        ),
        sentence_pair(seq![p0, p1] + more) == Ok::<(Seq<char>, Seq<char>), SelectError>(
            (paragraph_text(p0), paragraph_text(p1)),
        ),
{
    let paras = seq![p0, p1] + more;
    assert(paras[0] == p0);
    assert(paras[1] == p1);
}

/// Appending paragraphs to an item with at least two does not change its example.
pub proof fn lemma_sentence_pair_extend(paras: Seq<Seq<Seq<char>>>, more: Seq<Seq<Seq<char>>>)
    requires
        paras.len() >= 2,
    ensures
        sentence_pair(paras + more) == sentence_pair(paras),
{
    assert((paras + more)[0] == paras[0]);
    assert((paras + more)[1] == paras[1]);
}

/// The examples of the groups of `a ++ b` are those of `a` followed by those of `b`.
pub proof fn lemma_sentences_of_append(
    a: Seq<Seq<Seq<Seq<char>>>>,
    b: Seq<Seq<Seq<Seq<char>>>>,
)
    ensures
        sentences_of(a + b) == sentences_of(a) + sentences_of(b),
    decreases b.len(),
{
    if b.len() == 0 {
        assert(a + b =~= a);
        assert(sentences_of(a) + sentences_of(b) =~= sentences_of(a));
    } else {
        lemma_sentences_of_append(a, b.drop_last());
        assert((a + b).drop_last() =~= a + b.drop_last());
        assert((a + b).last() == b.last());
        match sentence_pair(b.last()) {
            Ok(pair) => {
                assert((sentences_of(a) + sentences_of(b.drop_last())).push(pair) =~= sentences_of(
                    a,
                ) + sentences_of(b.drop_last()).push(pair));
            },
            Err(_) => {},
        }
    }
}

/// The address of the dictionary page for `word`, before URL parsing.
pub open spec fn youdao_address(word: Seq<char>) -> Seq<char> {
    "http://dict.youdao.com/search?q="@ + word
}

/// One paragraph's text.
pub fn paragraph(texts: &Vec<String>) -> (r: String)
    ensures
        r@ == paragraph_text(texts.deep_view()),
{
    proof {
        reveal_strlit("");
        assert(""@ =~= Seq::<char>::empty());
    }
    let joined = join_strings(texts, "");
    collapse_ws(joined.as_str())
}

/// One word-form text node's line.
fn variant_line(t: &String) -> (r: String)
    ensures
        r@ == text_line(t@),
{
    proof {
        reveal_strlit(" ");
        assert(" "@ =~= seq![' ']);
    }
    let lines = split_lines(t.as_str());
    let kept = trim_all(&lines);
    join_strings(&kept, " ")
}

/// The pronunciations of the matched elements.
pub fn pronunciation(elems: &Vec<Vec<String>>) -> (r: Vec<(String, String)>)
    ensures
        r.deep_view() == pronunciation_of(elems.deep_view()),
{
    let mut r: Vec<(String, String)> = Vec::new();
    let mut i: usize = 0;
    while i < elems.len()
        invariant
            i <= elems@.len(),
            r.deep_view() == pronunciation_of(elems.deep_view().take(i as int)),
        decreases elems@.len() - i,
    {
        assert(elems.deep_view().take(i + 1).drop_last() =~= elems.deep_view().take(i as int));
        assert(elems.deep_view().take(i + 1).last() == elems[i as int].deep_view());
        let t = trim_all(&elems[i]);
        if t.len() >= 2 {
            let region = t[0].clone();
            let pron = t[1].clone();
            r.push((region, pron));
            assert(r.deep_view() =~= pronunciation_of(elems.deep_view().take(i + 1)));
        }
        i = i + 1;
    }
    assert(elems.deep_view().take(elems@.len() as int) =~= elems.deep_view());
    r
}

/// The brief meanings of the matched elements.
pub fn brief(elems: &Vec<Vec<String>>) -> (r: Vec<String>)
    ensures
        r.deep_view() == brief_of(elems.deep_view()),
{
    proof {
        reveal_strlit("");
        assert(""@ =~= Seq::<char>::empty());
    }
    let mut r: Vec<String> = Vec::new();
    let mut i: usize = 0;
    while i < elems.len()
        invariant
            i <= elems@.len(),
            ""@ == Seq::<char>::empty(),
            r.deep_view() =~= brief_of(elems.deep_view().take(i as int)),
        decreases elems@.len() - i,
    {
        let t = trim_all(&elems[i]);
        let line = join_strings(&t, "");
        push_string(&mut r, line);
        assert(elems.deep_view().take(i + 1)[i as int] == elems[i as int].deep_view());
        assert(r.deep_view() =~= brief_of(elems.deep_view().take(i + 1)));
        i = i + 1;
    }
    assert(elems.deep_view().take(elems@.len() as int) =~= elems.deep_view());
    r
}

/// The word forms of the matched elements.
pub fn variants(elems: &Vec<Vec<String>>) -> (r: Vec<String>)
    ensures
        r.deep_view() == variants_of(elems.deep_view()),
{
    let mut r: Vec<String> = Vec::new();
    let mut i: usize = 0;
    while i < elems.len()
        invariant
            i <= elems@.len(),
            r.deep_view() == variants_of(elems.deep_view().take(i as int)),
        decreases elems@.len() - i,
    {
        assert(elems.deep_view().take(i + 1).drop_last() =~= elems.deep_view().take(i as int));
        assert(elems.deep_view().take(i + 1).last() == elems[i as int].deep_view());
        let texts = &elems[i];
        let ghost before = r.deep_view();
        let mut j: usize = 0;
        while j < texts.len()
            invariant
                j <= texts@.len(),
                i < elems@.len(),
                texts.deep_view() == elems[i as int].deep_view(),
                r.deep_view() == before + element_variants(texts.deep_view().take(j as int)),
            decreases texts@.len() - j,
        {
            assert(texts.deep_view().take(j + 1).drop_last() =~= texts.deep_view().take(
                j as int,
            ));
            assert(texts.deep_view().take(j + 1).last() == texts[j as int]@);
            let line = variant_line(&texts[j]);
            if line.unicode_len() > 0 {
                push_string(&mut r, line);
            }
            assert(r.deep_view() =~= before + element_variants(texts.deep_view().take(j + 1)));
            j = j + 1;
        }
        assert(texts.deep_view().take(texts@.len() as int) =~= texts.deep_view());
        i = i + 1;
    }
    assert(elems.deep_view().take(elems@.len() as int) =~= elems.deep_view());
    r
}

/// An example read from its paragraphs.
pub struct Sen;

impl Sen {
    /// The original and its translation, from the first two paragraphs.
    pub fn from_paragraphs(paras: &Vec<Vec<String>>) -> (r: Result<(String, String), SelectError>)
        ensures
            match r {
                Ok(pair) => sentence_pair(paras.deep_view()) == Ok::<
                    (Seq<char>, Seq<char>),
                    SelectError,
                >(pair.deep_view()),
                Err(e) => sentence_pair(paras.deep_view()) == Err::<
                    (Seq<char>, Seq<char>),
                    SelectError,
                >(e),
            },
    {
        if paras.len() == 0 {
            return Err(SelectError::NoOriginal);
        }
        if paras.len() == 1 {
            return Err(SelectError::NoTranslation);
        }
        let ori = paragraph(&paras[0]);
        let trans = paragraph(&paras[1]);
        Ok((ori, trans))
    }

    /// The example that the paragraphs of `html` make.
    pub fn select(html: &str, _word_query: &ExactQuery) -> (r: Result<(String, String), SelectError>)
        ensures
            match html_select_texts(html@, "p"@) {
                None => r == Err::<(String, String), SelectError>(SelectError::InvalidSelector),
                Some(paras) => match r {
                    Ok(pair) => sentence_pair(paras) == Ok::<
                        (Seq<char>, Seq<char>),
                        SelectError,
                    >(pair.deep_view()),
                    Err(e) => sentence_pair(paras) == Err::<(Seq<char>, Seq<char>), SelectError>(
                        e,
                    ),
                },
            },
    {
        match select_texts(html, "p") {
            Some(paras) => Self::from_paragraphs(&paras),
            None => Err(SelectError::InvalidSelector),
        }
    }
}

/// The bilingual examples of a page.
pub struct Sentence;

impl Sentence {
    /// The examples that the groups of paragraphs make; incomplete ones are skipped.
    pub fn from_groups(groups: &Vec<Vec<Vec<String>>>) -> (r: Vec<(String, String)>)
        ensures
            r.deep_view() == sentences_of(groups.deep_view()),
    {
        let mut r: Vec<(String, String)> = Vec::new();
        let mut i: usize = 0;
        while i < groups.len()
            invariant
                i <= groups@.len(),
                r.deep_view() == sentences_of(groups.deep_view().take(i as int)),
            decreases groups@.len() - i,
        {
            assert(groups.deep_view().take(i + 1).drop_last() =~= groups.deep_view().take(
                i as int,
            ));
            assert(groups.deep_view().take(i + 1).last() == groups[i as int].deep_view());
            match Sen::from_paragraphs(&groups[i]) {
                Ok(pair) => {
                    r.push(pair);
                    assert(r.deep_view() =~= sentences_of(groups.deep_view().take(i + 1)));
                },
                Err(_) => {},
            }
            i = i + 1;
        }
        assert(groups.deep_view().take(groups@.len() as int) =~= groups.deep_view());
        r
    }

    /// The examples of the page `html`: paragraphs within the items of the bilingual
    /// container.
    pub fn select(html: &str, _word_query: &ExactQuery) -> (r: Result<
        Vec<(String, String)>,
        SelectError,
    >)
        ensures
            match html_select_nested_texts(html@, "#bilingual.trans-container li"@, "p"@) {
                None => r is Err,
                Some(groups) => r matches Ok(v) && v.deep_view() == sentences_of(groups),
            },
    {
        match select_nested_texts(html, "#bilingual.trans-container li", "p") {
            Some(groups) => Ok(Self::from_groups(&groups)),
            None => Err(SelectError::InvalidSelector),
        }
    }
}

/// The entry that a page's selected texts make.
pub open spec fn entry_of(
    pron: Seq<Seq<Seq<char>>>,
    brief: Seq<Seq<Seq<char>>>,
    variants: Seq<Seq<Seq<char>>>,
    examples: Seq<Seq<Seq<Seq<char>>>>,
    entry: SingleEntry,
) -> bool {
    &&& entry.pronunciation.deep_view() == pronunciation_of(pron)
    &&& entry.brief.deep_view() == brief_of(brief)
    &&& entry.variants.deep_view() == variants_of(variants)
    &&& entry.authority@.len() == 0
    &&& entry.sentence.deep_view() == sentences_of(examples)
}

impl SingleEntry {
    /// The entry made of the texts a page's selectors found.
    pub fn from_texts(
        pron: &Vec<Vec<String>>,
        brief_texts: &Vec<Vec<String>>,
        variant_texts: &Vec<Vec<String>>,
        examples: &Vec<Vec<Vec<String>>>,
    ) -> (r: SingleEntry)
        ensures
            entry_of(
                pron.deep_view(),
                brief_texts.deep_view(),
                variant_texts.deep_view(),
                examples.deep_view(),
                r,
            ),
    {
        SingleEntry {
            pronunciation: pronunciation(pron),
            brief: brief(brief_texts),
            variants: variants(variant_texts),
            authority: Vec::new(),
            sentence: Sentence::from_groups(examples),
        }
    }
}

impl QueryYoudict {
    /// The address of the dictionary page for the queried word.
    pub fn url(&self, word_query: &ExactQuery) -> (r: Option<String>)
        ensures
            match r {
                Some(u) => parsed_url(youdao_address(word_query.word_view())) == Some(u@),
                None => parsed_url(youdao_address(word_query.word_view())) is None,
            },
    {
        let mut address = String::from_str("http://dict.youdao.com/search?q=");
        let word = word_query.word();
        address.append(word.as_str());
        parse_url(address.as_str())
    }

    /// The entry that the dictionary page `html` gives.
    pub fn select(html: &str, _word_query: &ExactQuery) -> (r: Result<SingleEntry, SelectError>)
        ensures
            match (
                html_select_texts(html@, "span.pronounce"@),
                html_select_texts(html@, "#phrsListTab .trans-container ul li"@),
                html_select_texts(html@, "#phrsListTab .trans-container p"@),
                html_select_nested_texts(html@, "#bilingual.trans-container li"@, "p"@),
            ) {
                (Some(p), Some(b), Some(v), Some(s)) => r matches Ok(e) && entry_of(p, b, v, s, e),
                _ => r == Err::<SingleEntry, SelectError>(SelectError::InvalidSelector),
            },
    {
        let pron = select_texts(html, "span.pronounce");
        let brief_texts = select_texts(html, "#phrsListTab .trans-container ul li");
        let variant_texts = select_texts(html, "#phrsListTab .trans-container p");
        let examples = select_nested_texts(html, "#bilingual.trans-container li", "p");
        match (pron, brief_texts, variant_texts, examples) {
            (Some(p), Some(b), Some(v), Some(s)) => Ok(SingleEntry::from_texts(&p, &b, &v, &s)),
            _ => Err(SelectError::InvalidSelector),
        }
    }
}

} // verus!
