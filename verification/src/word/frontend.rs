//! A dictionary entry and how it is laid out for the terminal.
use vstd::prelude::*;

use crate::app::config::Normal;
use crate::text::{self, decimal_string, push_char, spaces_string};
use crate::word::Answer;

verus! {

/// What the dictionary knows of one word.
#[derive(Debug)]
pub struct SingleEntry {
    pub pronunciation: Vec<(String, String)>,
    pub brief: Vec<String>,
    pub variants: Vec<String>,
    pub authority: Vec<String>,
    pub sentence: Vec<(String, String)>,
}

impl Answer for SingleEntry {
    fn not_found(&self) -> (r: bool)
        ensures
            r == (self.pronunciation@.len() == 0 && self.brief@.len() == 0 && self.variants@.len()
                == 0 && self.authority@.len() == 0 && self.sentence@.len() == 0),
    {
        self.pronunciation.len() == 0 && self.brief.len() == 0 && self.variants.len() == 0
            && self.authority.len() == 0 && self.sentence.len() == 0
    }
}

/// How a piece of the layout is coloured.
#[derive(Clone, Copy, Debug, PartialEq, Eq, Structural)]
pub enum Style {
    Plain,
    BrightRed,
    Cyan,
    BrightBlue,
    BrightBlack,
    BrightGreen,
    Yellow,
}

impl DeepView for Style {
    type V = Style;

    open spec fn deep_view(&self) -> Style {
        *self
    }
}

/// A piece of the layout.
pub type Piece = (Style, Seq<char>);

/// A line of text in one style.
pub open spec fn line(style: Style, text: Seq<char>) -> Seq<Piece> {
    seq![(style, text), (Style::Plain, seq!['\n'])]
}

/// One line per text, in one style.
pub open spec fn lines(style: Style, texts: Seq<Seq<char>>) -> Seq<Piece>
    decreases texts.len(),
{
    if texts.len() == 0 {
        Seq::empty()
    } else {
        lines(style, texts.drop_last()) + line(style, texts.last())
    }
}

/// The pronunciations on one line: each region, a space, the phonetics, a tab.
pub open spec fn pronunciation_pieces(prons: Seq<(Seq<char>, Seq<char>)>) -> Seq<Piece>
    decreases prons.len(),
{
    if prons.len() == 0 {
        Seq::empty()
    } else {
        pronunciation_pieces(prons.drop_last()) + seq![
            (Style::Plain, prons.last().0.push(' ')),
            (Style::Cyan, prons.last().1),
            (Style::Plain, seq!['\t']),
        ]
    }
}

/// The label of the `n`-th example.
pub open spec fn example_label(n: nat) -> Seq<char> {
    text::decimal(n) + seq!['.', ' ']
}

/// The examples, numbered from one; each translation is indented under its original.
pub open spec fn example_pieces(sents: Seq<(Seq<char>, Seq<char>)>) -> Seq<Piece>
    decreases sents.len(),
{
    if sents.len() == 0 {
        Seq::empty()
    } else {
        let label = example_label(sents.len());
        example_pieces(sents.drop_last()) + seq![
            (Style::Plain, label),
            (Style::BrightGreen, sents.last().0),
            (Style::Plain, seq!['\n'] + text::spaces(label.len())),
            (Style::Yellow, sents.last().1),
            (Style::Plain, seq!['\n']),
        ]
    }
}

/// The layout of an entry for `word`: the word, then the pronunciations, meanings, word
/// forms and examples that `normal` asks for (the meanings always).
pub open spec fn layout(
    word: Seq<char>,
    normal: Normal,
    prons: Seq<(Seq<char>, Seq<char>)>,
    brief: Seq<Seq<char>>,
    variants: Seq<Seq<char>>,
    sents: Seq<(Seq<char>, Seq<char>)>,
) -> Seq<Piece> {
    line(Style::BrightRed, word) + (if normal.with_pronunciation && prons.len() > 0 {
        pronunciation_pieces(prons) + seq![(Style::Plain, seq!['\n'])]
    } else {
        Seq::empty()
    }) + lines(Style::BrightBlue, brief) + (if normal.with_variants {
        lines(Style::BrightBlack, variants)
    } else {
        Seq::empty()
    }) + (if normal.with_sentence {
        example_pieces(sents)
    } else {
        Seq::empty()
    })
}

/// Each text gets a line of its own, in order: the text in the given style, then a
/// newline; nothing else is shown.
pub proof fn lemma_lines_shape(style: Style, texts: Seq<Seq<char>>)
    ensures
        lines(style, texts).len() == 2 * texts.len(),
        forall|k: int|
            #![trigger texts[k]]
            0 <= k < texts.len() ==> lines(style, texts)[2 * k] == (style, texts[k]) && lines(
                style,
                texts,
            )[2 * k + 1] == (Style::Plain, seq!['\n']),
    decreases texts.len(),
{
    if texts.len() > 0 {
        let init = texts.drop_last();
        lemma_lines_shape(style, init);
        assert forall|k: int| 0 <= k < texts.len() implies lines(style, texts)[2 * k] == (
            style,
            texts[k],
        ) && lines(style, texts)[2 * k + 1] == (Style::Plain, seq!['\n']) by {
            if k < texts.len() - 1 {
                assert(init[k] == texts[k]);
            }
        }
    }
}

/// The lines of two lists of texts, one after the other, are the lines of the first
/// list followed by the lines of the second.
pub proof fn lemma_lines_append(style: Style, a: Seq<Seq<char>>, b: Seq<Seq<char>>)
    ensures
        lines(style, a + b) == lines(style, a) + lines(style, b),
    decreases b.len(),
{
    if b.len() == 0 {
        assert(a + b =~= a);
        assert(lines(style, a) + lines(style, b) =~= lines(style, a));
    } else {
        lemma_lines_append(style, a, b.drop_last());
        assert((a + b).drop_last() =~= a + b.drop_last());
        assert((a + b).last() == b.last());
        assert(lines(style, a) + lines(style, b.drop_last()) + line(style, b.last()) =~= lines(
            style,
            a,
        ) + (lines(style, b.drop_last()) + line(style, b.last())));
    }
}

/// Every pronunciation is shown, in order: its region and a space, its phonetics in
/// cyan, then a tab.
pub proof fn lemma_pronunciation_pieces_shape(prons: Seq<(Seq<char>, Seq<char>)>)
    ensures
        pronunciation_pieces(prons).len() == 3 * prons.len(),
        forall|k: int|
            #![trigger prons[k]]
            0 <= k < prons.len() ==> pronunciation_pieces(prons)[3 * k] == (
                Style::Plain,
                prons[k].0.push(' '),
            ) && pronunciation_pieces(prons)[3 * k + 1] == (Style::Cyan, prons[k].1)
                && pronunciation_pieces(prons)[3 * k + 2] == (Style::Plain, seq!['\t']),
    decreases prons.len(),
{
    if prons.len() > 0 {
        let init = prons.drop_last();
        lemma_pronunciation_pieces_shape(init);
        assert forall|k: int| 0 <= k < prons.len() implies pronunciation_pieces(prons)[3 * k] == (
            Style::Plain,
            prons[k].0.push(' '),
        ) && pronunciation_pieces(prons)[3 * k + 1] == (Style::Cyan, prons[k].1)
            && pronunciation_pieces(prons)[3 * k + 2] == (Style::Plain, seq!['\t']) by {
            if k < prons.len() - 1 {
                assert(init[k] == prons[k]);
            }
        }
    }
}

/// The pronunciation pieces of two lists, one after the other, are those of the first
/// list followed by those of the second.
pub proof fn lemma_pronunciation_pieces_append(
    a: Seq<(Seq<char>, Seq<char>)>,
    b: Seq<(Seq<char>, Seq<char>)>,
)
    ensures
        pronunciation_pieces(a + b) == pronunciation_pieces(a) + pronunciation_pieces(b),
    decreases b.len(),
{
    if b.len() == 0 {
        assert(a + b =~= a);
        assert(pronunciation_pieces(a) + pronunciation_pieces(b) =~= pronunciation_pieces(a));
    } else {
        lemma_pronunciation_pieces_append(a, b.drop_last());
        assert((a + b).drop_last() =~= a + b.drop_last());
        assert((a + b).last() == b.last());
        let tail = seq![
            (Style::Plain, b.last().0.push(' ')),
            (Style::Cyan, b.last().1),
            (Style::Plain, seq!['\t']),
        ];
        assert(pronunciation_pieces(a) + pronunciation_pieces(b.drop_last()) + tail
            =~= pronunciation_pieces(a) + (pronunciation_pieces(b.drop_last()) + tail));
    }
}

/// Every example is shown, in order and numbered from one: its label, the original in
/// green, a newline and an indent as wide as the label, the translation in yellow, and
/// a newline.
pub proof fn lemma_example_pieces_shape(sents: Seq<(Seq<char>, Seq<char>)>)
    ensures
        example_pieces(sents).len() == 5 * sents.len(),
        forall|k: int|
            #![trigger sents[k]]
            0 <= k < sents.len() ==> {
                let label = example_label((k + 1) as nat);
                &&& example_pieces(sents)[5 * k] == (Style::Plain, label)
                &&& example_pieces(sents)[5 * k + 1] == (Style::BrightGreen, sents[k].0)
                &&& example_pieces(sents)[5 * k + 2] == (
                    Style::Plain,
                    seq!['\n'] + text::spaces(label.len()),
                )
                &&& example_pieces(sents)[5 * k + 3] == (Style::Yellow, sents[k].1)
                &&& example_pieces(sents)[5 * k + 4] == (Style::Plain, seq!['\n'])
            },
    decreases sents.len(),
{
    if sents.len() > 0 {
        let init = sents.drop_last();
        lemma_example_pieces_shape(init);
        assert forall|k: int| #![trigger sents[k]] 0 <= k < sents.len() implies {
            let label = example_label((k + 1) as nat);
            &&& example_pieces(sents)[5 * k] == (Style::Plain, label)
            &&& example_pieces(sents)[5 * k + 1] == (Style::BrightGreen, sents[k].0)
            &&& example_pieces(sents)[5 * k + 2] == (
                Style::Plain,
                seq!['\n'] + text::spaces(label.len()),
            )
            &&& example_pieces(sents)[5 * k + 3] == (Style::Yellow, sents[k].1)
            &&& example_pieces(sents)[5 * k + 4] == (Style::Plain, seq!['\n'])
        } by {
            if k < sents.len() - 1 {
                assert(init[k] == sents[k]);
            }
        }
    }
}

fn single_char(c: char) -> (r: String)
    ensures
        r@ == seq![c],
{
    let mut r = String::new();
    push_char(&mut r, c);
    assert(r@ =~= seq![c]);
    r
}

fn push_piece(out: &mut Vec<(Style, String)>, style: Style, s: String)
    ensures
        final(out).deep_view() == old(out).deep_view().push((style, s@)),
{
    let ghost before = out.deep_view();
    let ghost sv = s@;
    out.push((style, s));
    assert(out.deep_view()[before.len() as int] == (style, sv));
    assert(out.deep_view() =~= before.push((style, sv)));
}

fn push_lines(out: &mut Vec<(Style, String)>, style: Style, texts: &Vec<String>)
    ensures
        final(out).deep_view() == old(out).deep_view() + lines(style, texts.deep_view()),
{
    let ghost start = out.deep_view();
    let mut i: usize = 0;
    assert(start + lines(style, texts.deep_view().take(0)) =~= start);
    while i < texts.len()
        invariant
            i <= texts@.len(),
            out.deep_view() == start + lines(style, texts.deep_view().take(i as int)),
        decreases texts@.len() - i,
    {
        assert(texts.deep_view().take(i + 1).drop_last() =~= texts.deep_view().take(i as int));
        assert(texts.deep_view().take(i + 1).last() == texts[i as int]@);
        let ghost mid = out.deep_view();
        push_piece(out, style, texts[i].clone());
        push_piece(out, Style::Plain, single_char('\n'));
        assert(lines(style, texts.deep_view().take(i + 1)) == lines(style, texts.deep_view().take(i as int)) + line(style, texts[i as int]@));
        assert(out.deep_view() =~= mid + line(style, texts[i as int]@));
        assert(out.deep_view() =~= start + lines(style, texts.deep_view().take(i + 1)));
        i = i + 1;
    }
    assert(texts.deep_view().take(texts@.len() as int) =~= texts.deep_view());
}

impl SingleEntry {
    /// The pieces in which this entry is shown for `word`, each with its colour.
    pub fn render(&self, word: &str, normal: &Normal) -> (r: Vec<(Style, String)>)
        requires
            self.sentence@.len() < usize::MAX,
        ensures
            r.deep_view() == layout(
                word@,
                *normal,
                self.pronunciation.deep_view(),
                self.brief.deep_view(),
                self.variants.deep_view(),
                self.sentence.deep_view(),
            ),
    {
        let mut out: Vec<(Style, String)> = Vec::new();
        push_piece(&mut out, Style::BrightRed, String::from_str(word));
        push_piece(&mut out, Style::Plain, single_char('\n'));
        assert(out.deep_view() =~= line(Style::BrightRed, word@));
        let ghost head = out.deep_view();
        if normal.with_pronunciation && self.pronunciation.len() > 0 {
            let prons = &self.pronunciation;
            let mut i: usize = 0;
            assert(head + pronunciation_pieces(prons.deep_view().take(0)) =~= head);
            while i < prons.len()
                invariant
                    i <= prons@.len(),
                    out.deep_view() == head + pronunciation_pieces(prons.deep_view().take(i as int)),
                decreases prons@.len() - i,
            {
                assert(prons.deep_view().take(i + 1).drop_last() =~= prons.deep_view().take(
                    i as int,
                ));
                assert(prons.deep_view().take(i + 1).last() == prons[i as int].deep_view());
                let ghost mid = out.deep_view();
                let mut region = prons[i].0.clone();
                push_char(&mut region, ' ');
                push_piece(&mut out, Style::Plain, region);
                push_piece(&mut out, Style::Cyan, prons[i].1.clone());
                push_piece(&mut out, Style::Plain, single_char('\t'));
                assert(pronunciation_pieces(prons.deep_view().take(i + 1))
                    == pronunciation_pieces(prons.deep_view().take(i as int)) + seq![
                    (Style::Plain, prons[i as int].0@.push(' ')),
                    (Style::Cyan, prons[i as int].1@),
                    (Style::Plain, seq!['\t']),
                ]);
                assert(out.deep_view() =~= head + pronunciation_pieces(
                    prons.deep_view().take(i + 1),
                ));
                i = i + 1;
            }
            assert(prons.deep_view().take(prons@.len() as int) =~= prons.deep_view());
            push_piece(&mut out, Style::Plain, single_char('\n'));
        }
        assert(out.deep_view() =~= line(Style::BrightRed, word@) + (if normal.with_pronunciation
            && self.pronunciation@.len() > 0 {
            pronunciation_pieces(self.pronunciation.deep_view()) + seq![(Style::Plain, seq!['\n'])]
        } else {
            Seq::empty()
        }));
        push_lines(&mut out, Style::BrightBlue, &self.brief);
        if normal.with_variants {
            push_lines(&mut out, Style::BrightBlack, &self.variants);
        }
        let ghost before = out.deep_view();
        if normal.with_sentence {
            let sents = &self.sentence;
            let mut i: usize = 0;
            assert(before + example_pieces(sents.deep_view().take(0)) =~= before);
            while i < sents.len()
                invariant
                    i <= sents@.len(),
                    sents@.len() < usize::MAX,
                    out.deep_view() == before + example_pieces(sents.deep_view().take(i as int)),
                decreases sents@.len() - i,
            {
                assert(sents.deep_view().take(i + 1).drop_last() =~= sents.deep_view().take(
                    i as int,
                ));
                assert(sents.deep_view().take(i + 1).last() == sents[i as int].deep_view());
                let mut label = decimal_string(i + 1);
                push_char(&mut label, '.');
                push_char(&mut label, ' ');
                assert(label@ =~= example_label((i + 1) as nat));
                let mut indent = single_char('\n');
                let blank = spaces_string(label.unicode_len());
                indent.append(blank.as_str());
                let ghost label_v = label@;
                let ghost indent_v = indent@;
                push_piece(&mut out, Style::Plain, label);
                push_piece(&mut out, Style::BrightGreen, sents[i].0.clone());
                push_piece(&mut out, Style::Plain, indent);
                push_piece(&mut out, Style::Yellow, sents[i].1.clone());
                push_piece(&mut out, Style::Plain, single_char('\n'));
                assert(example_pieces(sents.deep_view().take(i + 1)) == example_pieces(
                    sents.deep_view().take(i as int),
                ) + seq![
                    (Style::Plain, label_v),
                    (Style::BrightGreen, sents[i as int].0@),
                    (Style::Plain, indent_v),
                    (Style::Yellow, sents[i as int].1@),
                    (Style::Plain, seq!['\n']),
                ]);
                assert(out.deep_view() =~= before + example_pieces(sents.deep_view().take(i + 1)));
                i = i + 1;
            }
            assert(sents.deep_view().take(sents@.len() as int) =~= sents.deep_view());
        }
        out
    }
}

} // verus!
