//! Turning a path of best label indices into text.
//!
//! A vocabulary is an ordered list of labels. Two of them are special: the blank label
//! `"_"`, which stands for "nothing was said in this time frame", and the sentinel label
//! `"2"`, which stands for "the previous unit once more". Decoding walks the path once,
//! produces a sequence of units, drops every unit that repeats the one before it, joins
//! what is left and trims the result.

use crate::error::ErrorKind;
use crate::text::{remove_char, trim, trimmed, without};
use vstd::prelude::*;

verus! {

/// The label that produces no output.
pub open spec fn blank_label() -> Seq<char> {
    seq!['_']
}

/// The label that repeats the unit produced last.
pub open spec fn sentinel_label() -> Seq<char> {
    seq!['2']
}

/// The unit that a sentinel produces when nothing was produced before it.
pub open spec fn space_unit() -> Seq<char> {
    seq![' ']
}

/// The marker that keeps a repeated unit apart from the unit it repeats.
pub open spec fn joiner_unit() -> Seq<char> {
    seq!['$']
}

/// `i` is the one and only position of `label` in `labels`.
pub open spec fn sole_position(labels: Seq<Seq<char>>, label: Seq<char>, i: int) -> bool {
    &&& 0 <= i < labels.len()
    &&& labels[i] == label
    &&& forall|j: int| 0 <= j < labels.len() && labels[j] == label ==> j == i
}

/// `label` stands in `labels` exactly once.
pub open spec fn holds_once(labels: Seq<Seq<char>>, label: Seq<char>) -> bool {
    exists|i: int| sole_position(labels, label, i)
}

/// A vocabulary can be decoded with when it holds exactly one blank label and exactly
/// one sentinel label.
pub open spec fn valid_vocabulary(labels: Seq<Seq<char>>) -> bool {
    holds_once(labels, blank_label()) && holds_once(labels, sentinel_label())
}

/// Every token of the path is an index into the vocabulary.
pub open spec fn tokens_in_range(labels: Seq<Seq<char>>, tokens: Seq<usize>) -> bool {
    forall|k: int| 0 <= k < tokens.len() ==> tokens[k] < labels.len()
}

/// The units after one more token, given the units `produced` so far.
///
/// A sentinel produces a space when nothing was produced yet, and otherwise a joiner
/// followed by the last unit once more. A blank produces nothing. Any other token
/// produces its label.
pub open spec fn next_units(labels: Seq<Seq<char>>, produced: Seq<Seq<char>>, token: int) -> Seq<
    Seq<char>,
> {
    if labels[token] == sentinel_label() {
        if produced.len() == 0 {
            seq![space_unit()]
        } else {
            produced.push(joiner_unit()).push(produced.last())
        }
    } else if labels[token] == blank_label() {
        produced
    } else {
        produced.push(labels[token])
    }
}

/// The units that a path of tokens produces, in order.
pub open spec fn units(labels: Seq<Seq<char>>, tokens: Seq<usize>) -> Seq<Seq<char>>
    decreases tokens.len(),
{
    if tokens.len() == 0 {
        Seq::empty()
    } else {
        next_units(labels, units(labels, tokens.drop_last()), tokens.last() as int)
    }
}

/// `units` without each unit that equals the unit just before it.
pub open spec fn collapse(units: Seq<Seq<char>>) -> Seq<Seq<char>>
    decreases units.len(),
{
    if units.len() == 0 {
        units
    } else {
        let before = units.drop_last();
        if before.len() > 0 && before.last() == units.last() {
            collapse(before)
        } else {
            collapse(before).push(units.last())
        }
    }
}

/// The text that a path of tokens decodes to: its units, collapsed, joined, freed of
/// joiner markers and trimmed.
pub open spec fn decoded_text(labels: Seq<Seq<char>>, tokens: Seq<usize>) -> Seq<char> {
    trimmed(without(collapse(units(labels, tokens)).flatten(), '$'))
}

/// One more unit either vanishes into the one before it or is appended to the text.
proof fn lemma_collapse_push(produced: Seq<Seq<char>>, unit: Seq<char>)
    ensures
        collapse(produced.push(unit)).flatten() == if produced.len() > 0 && produced.last()
            == unit {
            collapse(produced).flatten()
        } else {
            collapse(produced).flatten() + unit
        },
{
    assert(produced.push(unit).drop_last() =~= produced);
    collapse(produced).lemma_flatten_push(unit);
}

/// What `serde_json` reads from a text that is asked to be a list of strings: `Some` of
/// the list where the text is a JSON array of strings, `None` where the text is refused.
pub uninterp spec fn json_string_list(json: Seq<char>) -> Option<Seq<Seq<char>>>;

/// The error of `serde_json`. Nothing is read from it.
#[verifier::external_type_specification]
#[verifier::external_body]
pub struct ExJsonError(serde_json::Error);

/// `serde_json::from_str`, asked for a list of strings. It is believed to depend on the
/// text alone: it returns the list that [`json_string_list`] names, or an error when
/// there is no such list.
#[verifier::external_body]
fn parse_string_list(json: &str) -> (r: Result<Vec<String>, serde_json::Error>)
    ensures
        match r {
            Ok(list) => json_string_list(json@) == Some(list.deep_view()),
            Err(_) => json_string_list(json@) is None,
        },
{
    serde_json::from_str(json)
}

/// Decodes label index paths over a fixed vocabulary.
pub struct Decoder {
    labels: Vec<String>,
    blank_idx: usize,
    two_idx: usize,
}

impl View for Decoder {
    type V = Seq<Seq<char>>;

    /// The vocabulary, in order.
    closed spec fn view(&self) -> Seq<Seq<char>> {
        self.labels.deep_view()
    }
}

/// The position of `label` in `labels`, if it stands there exactly once.
fn sole_index(labels: &Vec<String>, label: &String) -> (r: Option<usize>)
    ensures
        match r {
            Some(i) => sole_position(labels.deep_view(), label@, i as int),
            None => !holds_once(labels.deep_view(), label@),
        },
{
    let ghost view = labels.deep_view();
    let mut found: Option<usize> = None;
    let mut i: usize = 0;
    while i < labels.len()
        invariant
            i <= labels.len(),
            view == labels.deep_view(),
            match found {
                Some(j) => j < i && view[j as int] == label@ && forall|k: int|
                    0 <= k < i && view[k] == label@ ==> k == j,
                None => forall|k: int| 0 <= k < i ==> view[k] != label@,
            },
        decreases labels.len() - i,
    {
        if labels[i] == *label {
            if let Some(j) = found {
                proof {
                    assert(view[j as int] == label@ && view[i as int] == label@);
                    assert forall|p: int| !sole_position(view, label@, p) by {
                        if sole_position(view, label@, p) {
                            assert(j as int == p && i as int == p);
                        }
                    }
                }
                return None;
            }
            found = Some(i);
        }
        i += 1;
    }
    found
}

/// Appends `unit` to `text` unless it repeats `last`, and returns it as the unit
/// produced last.
fn emit<'a>(text: &mut String, last: Option<&'a String>, unit: &'a String) -> (r: Option<
    &'a String,
>)
    ensures
        r == Some(unit),
        final(text)@ == if last matches Some(p) && p@ == unit@ {
            old(text)@
        } else {
            old(text)@ + unit@
        },
{
    let repeated = match last {
        Some(p) => *p == *unit,
        None => false,
    };
    if !repeated {
        text.append(unit.as_str());
    }
    Some(unit)
}

impl Decoder {
    #[verifier::type_invariant]
    spec fn well_formed(&self) -> bool {
        &&& sole_position(self.labels.deep_view(), blank_label(), self.blank_idx as int)
        &&& sole_position(self.labels.deep_view(), sentinel_label(), self.two_idx as int)
    }

    /// Builds a decoder over `labels`. The vocabulary is accepted when it holds exactly
    /// one blank label `"_"` and exactly one sentinel label `"2"`.
    pub fn new(labels: Vec<String>) -> (r: Result<Decoder, ErrorKind>)
        ensures
            match r {
                Ok(decoder) => decoder@ == labels.deep_view() && valid_vocabulary(decoder@),
                Err(e) => e == ErrorKind::DecoderConfig && !valid_vocabulary(labels.deep_view()),
            },
    {
        let blank = String::from_str("_");
        let two = String::from_str("2");
        proof {
            reveal_strlit("_");
            reveal_strlit("2");
            assert(blank@ =~= blank_label());
            assert(two@ =~= sentinel_label());
        }
        let blank_idx = match sole_index(&labels, &blank) {
            Some(i) => i,
            None => { return Err(ErrorKind::DecoderConfig); },
        };
        let two_idx = match sole_index(&labels, &two) {
            Some(i) => i,
            None => { return Err(ErrorKind::DecoderConfig); },
        };
        Ok(Decoder { labels, blank_idx, two_idx })
    }

    /// Builds a decoder over the vocabulary that `json` holds as a JSON array of
    /// strings.
    pub fn from_json(json: &str) -> (r: Result<Decoder, ErrorKind>)
        ensures
            match r {
                Ok(decoder) => json_string_list(json@) == Some(decoder@) && valid_vocabulary(
                    decoder@,
                ),
                Err(e) => e == ErrorKind::DecoderConfig && match json_string_list(json@) {
                    Some(labels) => !valid_vocabulary(labels),
                    None => true,
                },
            },
    {
        match parse_string_list(json) {
            Ok(labels) => Decoder::new(labels),
            Err(_) => Err(ErrorKind::DecoderConfig),
        }
    }

    /// The vocabulary, in order.
    pub fn labels(&self) -> (r: &[String])
        ensures
            r.deep_view() == self@,
            valid_vocabulary(self@),
    {
        proof {
            use_type_invariant(self);
        }
        self.labels.as_slice()
    }

    /// Decodes one path of label indices, one index per time frame, into text.
    pub fn decode(&self, argm: &[usize]) -> (r: Result<String, ErrorKind>)
        requires
            tokens_in_range(self@, argm@),
        ensures
            r matches Ok(text) && text@ == decoded_text(self@, argm@),
    {
        let space = String::from_str(" ");
        let joiner = String::from_str("$");
        let mut text = String::new();
        let mut last: Option<&String> = None;
        let ghost mut produced: Seq<Seq<char>> = Seq::empty();
        let mut i: usize = 0;
        proof {
            reveal_strlit(" ");
            reveal_strlit("$");
            assert(space@ =~= space_unit());
            assert(joiner@ =~= joiner_unit());
            assert(argm@.take(0) =~= Seq::<usize>::empty());
        }
        while i < argm.len()
            invariant
                i <= argm@.len(),
                tokens_in_range(self@, argm@),
                space@ == space_unit(),
                joiner@ == joiner_unit(),
                produced == units(self@, argm@.take(i as int)),
                text@ == collapse(produced).flatten(),
                produced.len() == 0 <==> last is None,
                last matches Some(p) ==> p@ == produced.last(),
            decreases argm.len() - i,
        {
            let token = argm[i];
            proof {
                use_type_invariant(self);
                assert(argm@.take(i + 1).drop_last() =~= argm@.take(i as int));
                assert(argm@.take(i + 1).last() == token);
                assert(self@[token as int] == self.labels@[token as int]@);
            }
            if token == self.two_idx {
                match last {
                    None => {
                        proof {
                            lemma_collapse_push(produced, space@);
                            assert(produced.push(space@) =~= seq![space_unit()]);
                            produced = produced.push(space@);
                        }
                        last = emit(&mut text, last, &space);
                    },
                    Some(previous) => {
                        proof {
                            lemma_collapse_push(produced, joiner@);
                            lemma_collapse_push(produced.push(joiner@), previous@);
                            produced = produced.push(joiner@).push(previous@);
                        }
                        last = emit(&mut text, last, &joiner);
                        last = emit(&mut text, last, previous);
                    },
                }
            } else if token != self.blank_idx {
                let label = &self.labels[token];
                proof {
                    lemma_collapse_push(produced, label@);
                    produced = produced.push(label@);
                }
                last = emit(&mut text, last, label);
            }
            i += 1;
        }
        proof {
            assert(argm@.take(i as int) =~= argm@);
        }
        let stripped = remove_char(text.as_str(), '$');
        Ok(trim(stripped.as_str()))
    }
}

/// A vocabulary that lacks the blank label or the sentinel label is not valid, and one
/// that holds both and no label twice is valid.
pub proof fn lemma_vocabulary_needs_both(labels: Seq<Seq<char>>)
    ensures
        !labels.contains(blank_label()) ==> !valid_vocabulary(labels),
        !labels.contains(sentinel_label()) ==> !valid_vocabulary(labels),
        labels.contains(blank_label()) && labels.contains(sentinel_label())
            && labels.no_duplicates() ==> valid_vocabulary(labels),
{
    if !labels.contains(blank_label()) {
        assert forall|i: int| !sole_position(labels, blank_label(), i) by {}
    }
    if !labels.contains(sentinel_label()) {
        assert forall|i: int| !sole_position(labels, sentinel_label(), i) by {}
    }
    if labels.contains(blank_label()) && labels.contains(sentinel_label())
        && labels.no_duplicates() {
        let b = choose|i: int| 0 <= i < labels.len() && labels[i] == blank_label();
        assert(sole_position(labels, blank_label(), b));
        let t = choose|i: int| 0 <= i < labels.len() && labels[i] == sentinel_label();
        assert(sole_position(labels, sentinel_label(), t));
    }
}

/// The units after the tokens of `tokens`, one after the other, given the units
/// `produced` so far.
pub open spec fn units_after(labels: Seq<Seq<char>>, produced: Seq<Seq<char>>, tokens: Seq<usize>)
    -> Seq<Seq<char>>
    decreases tokens.len(),
{
    if tokens.len() == 0 {
        produced
    } else {
        next_units(
            labels,
            units_after(labels, produced, tokens.drop_last()),
            tokens.last() as int,
        )
    }
}

/// The units of a path are the units of its first part, carried on by its second part.
pub proof fn lemma_units_of_parts(labels: Seq<Seq<char>>, first: Seq<usize>, second: Seq<usize>)
    ensures
        units(labels, first + second) == units_after(labels, units(labels, first), second),
    decreases second.len(),
{
    if second.len() == 0 {
        assert(first + second =~= first);
    } else {
        lemma_units_of_parts(labels, first, second.drop_last());
        assert((first + second).drop_last() =~= first + second.drop_last());
    }
}

/// A blank token changes nothing: the path without it decodes to the same text.
pub proof fn lemma_blank_is_silent(
    labels: Seq<Seq<char>>,
    first: Seq<usize>,
    blank: usize,
    second: Seq<usize>,
)
    requires
        labels[blank as int] == blank_label(),
    ensures
        units(labels, first.push(blank) + second) == units(labels, first + second),
        decoded_text(labels, first.push(blank) + second) == decoded_text(labels, first + second),
{
    assert(blank_label() != sentinel_label()) by {
        assert(blank_label()[0] == '_' && sentinel_label()[0] == '2');
    }
    assert(first.push(blank).drop_last() =~= first);
    lemma_units_of_parts(labels, first.push(blank), second);
    lemma_units_of_parts(labels, first, second);
}

/// Two unit sequences that collapse to the same units, end in the same unit and are
/// both empty or both not.
pub open spec fn alike(a: Seq<Seq<char>>, b: Seq<Seq<char>>) -> bool {
    &&& collapse(a) == collapse(b)
    &&& (a.len() == 0 <==> b.len() == 0)
    &&& a.len() > 0 ==> a.last() == b.last()
}

/// One more unit leaves two unit sequences alike.
proof fn lemma_alike_push(a: Seq<Seq<char>>, b: Seq<Seq<char>>, unit: Seq<char>)
    requires
        alike(a, b),
    ensures
        alike(a.push(unit), b.push(unit)),
{
    assert(a.push(unit).drop_last() =~= a);
    assert(b.push(unit).drop_last() =~= b);
}

/// One more token leaves two unit sequences alike.
proof fn lemma_alike_next(labels: Seq<Seq<char>>, a: Seq<Seq<char>>, b: Seq<Seq<char>>, token: int)
    requires
        alike(a, b),
    ensures
        alike(next_units(labels, a, token), next_units(labels, b, token)),
{
    if labels[token] == sentinel_label() {
        if a.len() > 0 {
            lemma_alike_push(a, b, joiner_unit());
            lemma_alike_push(a.push(joiner_unit()), b.push(joiner_unit()), a.last());
        }
    } else if labels[token] != blank_label() {
        lemma_alike_push(a, b, labels[token]);
    }
}

/// Any further tokens leave two unit sequences alike.
proof fn lemma_alike_after(
    labels: Seq<Seq<char>>,
    a: Seq<Seq<char>>,
    b: Seq<Seq<char>>,
    tokens: Seq<usize>,
)
    requires
        alike(a, b),
    ensures
        alike(units_after(labels, a, tokens), units_after(labels, b, tokens)),
    decreases tokens.len(),
{
    if tokens.len() > 0 {
        lemma_alike_after(labels, a, b, tokens.drop_last());
        lemma_alike_next(
            labels,
            units_after(labels, a, tokens.drop_last()),
            units_after(labels, b, tokens.drop_last()),
            tokens.last() as int,
        );
    }
}

/// A token that is not the sentinel counts once where it stands twice in a row: the
/// path with the second one left out decodes to the same text.
pub proof fn lemma_repeated_token_counts_once(
    labels: Seq<Seq<char>>,
    first: Seq<usize>,
    token: usize,
    second: Seq<usize>,
)
    requires
        labels[token as int] != sentinel_label(),
    ensures
        decoded_text(labels, first.push(token).push(token) + second) == decoded_text(
            labels,
            first.push(token) + second,
        ),
{
    let once = first.push(token);
    let twice = once.push(token);
    assert(twice.drop_last() =~= once);
    let a = units(labels, once);
    let b = units(labels, twice);
    assert(once.drop_last() =~= first);
    if labels[token as int] != blank_label() {
        let unit = labels[token as int];
        assert(a == units(labels, first).push(unit));
        assert(b == a.push(unit));
        assert(b.drop_last() =~= a);
        assert(alike(a, b));
    }
    lemma_alike_after(labels, a, b, second);
    lemma_units_of_parts(labels, once, second);
    lemma_units_of_parts(labels, twice, second);
}

/// Tokens only add units: what was produced stays where it is.
proof fn lemma_units_grow(labels: Seq<Seq<char>>, produced: Seq<Seq<char>>, tokens: Seq<usize>)
    requires
        produced.len() > 0,
    ensures
        units_after(labels, produced, tokens).len() > 0,
        units_after(labels, produced, tokens)[0] == produced[0],
    decreases tokens.len(),
{
    if tokens.len() > 0 {
        lemma_units_grow(labels, produced, tokens.drop_last());
    }
}

/// Collapsing keeps the first unit.
proof fn lemma_collapse_keeps_first(units: Seq<Seq<char>>)
    requires
        units.len() > 0,
    ensures
        collapse(units).len() > 0,
        collapse(units)[0] == units[0],
    decreases units.len(),
{
    if units.len() > 1 {
        lemma_collapse_keeps_first(units.drop_last());
    } else {
        assert(collapse(units.drop_last()) =~= Seq::<Seq<char>>::empty());
    }
}

/// A path that begins with the sentinel produces a space as its first unit, and the
/// joined units begin with that space: only the final trim takes it away.
pub proof fn lemma_sentinel_first_gives_space(labels: Seq<Seq<char>>, tokens: Seq<usize>)
    requires
        tokens.len() > 0,
        labels[tokens[0] as int] == sentinel_label(),
    ensures
        units(labels, tokens).len() > 0,
        units(labels, tokens)[0] == space_unit(),
        collapse(units(labels, tokens)).flatten().len() > 0,
        collapse(units(labels, tokens)).flatten()[0] == ' ',
{
    let head = seq![tokens[0]];
    let tail = tokens.skip(1);
    assert(head + tail =~= tokens);
    assert(head.drop_last() =~= Seq::<usize>::empty());
    assert(units(labels, head.drop_last()) =~= Seq::<Seq<char>>::empty());
    assert(units(labels, head) == seq![space_unit()]);
    lemma_units_of_parts(labels, head, tail);
    lemma_units_grow(labels, units(labels, head), tail);
    let all = units(labels, tokens);
    lemma_collapse_keeps_first(all);
    let kept = collapse(all);
    assert(kept.flatten() == kept.first() + kept.drop_first().flatten());
}

} // verus!
