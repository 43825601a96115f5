//! Reads markup text into an element tree, with quick-xml as the tokenizer.
use vstd::prelude::*;
use vstd::string::StringSliceAdditionalSpecFns;

use quick_xml::events::{BytesRef, Event};
use quick_xml::Reader;

use crate::error::DecodeError;
use crate::scalar::{is_digit, text_is};
use crate::tree::{
    initial_state, lemma_steps_append, lemma_steps_failed, step, steps, tree_of_tokens, BuildState,
    Token, TreeBuilder,
};
use crate::xml::{push_char, ElemModel, XmlElement};

verus! {

#[verifier::external_type_specification]
#[verifier::external_body]
#[verifier::reject_recursive_types(R)]
pub struct ExReader<R>(Reader<R>);

#[verifier::external_type_specification]
#[verifier::external_body]
pub struct ExXmlError(quick_xml::Error);

/// One markup event, as the tree builder consumes it.
#[derive(Debug, Clone, PartialEq, Eq)]
pub enum XmlEvent {
    Open(String),
    Close(String),
    Empty(String),
    Text(String),
    /// An entity or character reference, by the name between `&` and `;`.
    Reference(String),
    /// A declaration, comment, processing instruction or doctype.
    Skip,
    End,
}

/// The mathematical model of [`XmlEvent`].
pub ghost enum MarkupEvent {
    Open(Seq<char>),
    Close(Seq<char>),
    Empty(Seq<char>),
    Text(Seq<char>),
    Reference(Seq<char>),
    Skip,
    End,
}

impl View for XmlEvent {
    type V = MarkupEvent;

    open spec fn view(&self) -> MarkupEvent {
        match self {
            XmlEvent::Open(n) => MarkupEvent::Open(n@),
            XmlEvent::Close(n) => MarkupEvent::Close(n@),
            XmlEvent::Empty(n) => MarkupEvent::Empty(n@),
            XmlEvent::Text(t) => MarkupEvent::Text(t@),
            XmlEvent::Reference(n) => MarkupEvent::Reference(n@),
            XmlEvent::Skip => MarkupEvent::Skip,
            XmlEvent::End => MarkupEvent::End,
        }
    }
}

/// The event at position `index` (counted from zero) that quick-xml's reader,
/// in its default configuration, yields for `text`; `None` where the reader
/// reports an error.
pub uninterp spec fn markup_event(text: Seq<char>, index: nat) -> Option<MarkupEvent>;

/// Relies on `quick_xml::Reader::from_str`: a reader over the text.
#[verifier::external_body]
fn markup_reader<'a>(text: &'a str) -> Reader<&'a [u8]> {
    Reader::from_str(text)
}

/// A quick-xml reader over a text, with the events read so far counted.
pub struct MarkupReader<'a> {
    reader: Reader<&'a [u8]>,
    text: Ghost<Seq<char>>,
    index: Ghost<nat>,
}

impl<'a> MarkupReader<'a> {
    /// The text being read.
    pub closed spec fn text(&self) -> Seq<char> {
        self.text@
    }

    /// How many events have been read.
    pub closed spec fn index(&self) -> nat {
        self.index@
    }

    /// A reader at the start of `text`.
    pub fn new(text: &'a str) -> (r: Self)
        ensures
            r.text() == text@,
            r.index() == 0,
    {
        let reader = markup_reader(text);
        MarkupReader { reader, text: Ghost(text@), index: Ghost(0) }
    }

    /// Relies on `quick_xml::Reader::read_event`: the next event of the text,
    /// which depends only on the text and on how many events came before.
    #[verifier::external_body]
    pub fn next_event(&mut self) -> (r: Result<XmlEvent, quick_xml::Error>)
        ensures
            final(self).text() == old(self).text(),
            final(self).index() == old(self).index() + 1,
            match r {
                Ok(ev) => markup_event(old(self).text(), old(self).index()) == Some(ev@),
                Err(_) => markup_event(old(self).text(), old(self).index()) is None,
            },
    {
        match self.reader.read_event()? {
            Event::Start(e) => Ok(XmlEvent::Open(e.name().0.to_owned())),
            Event::End(e) => Ok(XmlEvent::Close(e.name().0.to_owned())),
            Event::Empty(e) => Ok(XmlEvent::Empty(e.name().0.to_owned())),
            Event::Text(e) => Ok(XmlEvent::Text(e.xml10_content().into_owned())),
            Event::CData(e) => Ok(XmlEvent::Text(e.into_inner().into_owned())),
            Event::GeneralRef(e) => Ok(XmlEvent::Reference(e.into_inner().into_owned())),
            Event::Eof => Ok(XmlEvent::End),
            _ => Ok(XmlEvent::Skip),
        }
    }
}

/// Relies on the `Display` text of `quick_xml::Error`.
#[verifier::external_body]
fn error_text(e: &quick_xml::Error) -> String {
    e.to_string()
}

/// The value of a hexadecimal digit, either case.
pub open spec fn hex_digit(c: char) -> Option<nat> {
    if '0' <= c && c <= '9' {
        Some(((c as u32) - ('0' as u32)) as nat)
    } else if 'a' <= c && c <= 'f' {
        Some(((c as u32) - ('a' as u32) + 10) as nat)
    } else if 'A' <= c && c <= 'F' {
        Some(((c as u32) - ('A' as u32) + 10) as nat)
    } else {
        None
    }
}

/// The value of a string of hexadecimal digits, or of decimal digits when
/// `hex` is false; `None` if another character occurs.
pub open spec fn radix_value(t: Seq<char>, hex: bool) -> Option<nat>
    decreases t.len(),
{
    if t.len() == 0 {
        Some(0)
    } else {
        let c = t.last();
        let digit = if hex {
            hex_digit(c)
        } else if is_digit(c) {
            Some(((c as u32) - ('0' as u32)) as nat)
        } else {
            None
        };
        match (radix_value(t.drop_last(), hex), digit) {
            (Some(v), Some(d)) => Some(v * (if hex { 16nat } else { 10nat }) + d),
            _ => None,
        }
    }
}

/// The code point that a character reference names: `#` and decimal digits,
/// or `#x` and hexadecimal digits, with a value that is a non-zero Unicode
/// scalar value.
pub open spec fn char_ref_code(name: Seq<char>) -> Option<nat> {
    if name.len() == 0 || name[0] != '#' {
        None
    } else {
        let num = name.drop_first();
        let hex = num.len() > 0 && num[0] == 'x';
        let digits = if hex {
            num.drop_first()
        } else {
            num
        };
        match radix_value(digits, hex) {
            Some(v) => if digits.len() > 0 && v != 0 && (v < 0xD800 || (0xE000 <= v && v
                <= 0x10FFFF)) {
                Some(v)
            } else {
                None
            },
            None => None,
        }
    }
}

/// The code point of a character.
pub open spec fn code_of(c: char) -> nat {
    c as u32 as nat
}

proof fn same_code_same_char(a: char, b: char)
    requires
        a as u32 == b as u32,
    ensures
        a == b,
{
}

/// The character with code point `v`.
pub open spec fn char_of(v: nat) -> char {
    choose|c: char| #[trigger] code_of(c) == v
}

/// Relies on `quick_xml::events::BytesRef::resolve_char_ref`: a name `#`
/// with decimal digits, or `#x` with hexadecimal digits, names the character
/// of that code point if it is a non-zero Unicode scalar value; any other
/// name names none.
#[verifier::external_body]
fn char_reference(name: &str) -> (r: Option<char>)
    ensures
        match char_ref_code(name@) {
            Some(v) => r is Some && r->Some_0 as u32 == v,
            None => r is None,
        },
{
    BytesRef::new(name).resolve_char_ref().ok().flatten()
}

/// The text of one of the five predefined entities.
pub open spec fn predefined_entity(name: Seq<char>) -> Option<Seq<char>> {
    if name == "lt"@ {
        Some("<"@)
    } else if name == "gt"@ {
        Some(">"@)
    } else if name == "amp"@ {
        Some("&"@)
    } else if name == "apos"@ {
        Some("'"@)
    } else if name == "quot"@ {
        Some("\""@)
    } else {
        None
    }
}

/// The text a reference stands for: a predefined entity, else a character
/// reference.
pub open spec fn reference_text(name: Seq<char>) -> Option<Seq<char>> {
    match predefined_entity(name) {
        Some(t) => Some(t),
        None => match char_ref_code(name) {
            Some(v) => Some(seq![char_of(v)]),
            None => None,
        },
    }
}

/// Resolves a reference to the text it stands for.
pub fn resolve_reference(name: &String) -> (r: Option<String>)
    ensures
        match r {
            Some(t) => reference_text(name@) == Some(t@),
            None => reference_text(name@) is None,
        },
{
    if text_is(name, "lt") {
        Some("<".to_owned())
    } else if text_is(name, "gt") {
        Some(">".to_owned())
    } else if text_is(name, "amp") {
        Some("&".to_owned())
    } else if text_is(name, "apos") {
        Some("'".to_owned())
    } else if text_is(name, "quot") {
        Some("\"".to_owned())
    } else {
        match char_reference(name.as_str()) {
            Some(c) => {
                proof {
                    let v = code_of(c);
                    assert(exists|d: char| #[trigger] code_of(d) == v);
                    let d = char_of(v);
                    assert(code_of(d) == v);
                    assert(d as u32 == c as u32);
                    same_code_same_char(c, d);
                    assert(c == char_of(v));
                }
                let mut t = String::new();
                push_char(&mut t, c);
                assert(t@ =~= seq![c]);
                Some(t)
            },
            None => None,
        }
    }
}

/// The tokens an event stands for; `None` for an unknown reference.
pub open spec fn event_tokens(ev: MarkupEvent) -> Option<Seq<Token>> {
    match ev {
        MarkupEvent::Open(n) => Some(seq![Token::Open(n)]),
        MarkupEvent::Close(n) => Some(seq![Token::Close(n)]),
        MarkupEvent::Empty(n) => Some(seq![Token::Open(n), Token::Close(n)]),
        MarkupEvent::Text(t) => Some(seq![Token::Chars(t)]),
        MarkupEvent::Reference(n) => match reference_text(n) {
            Some(t) => Some(seq![Token::Chars(t)]),
            None => None,
        },
        MarkupEvent::Skip => Some(Seq::empty()),
        MarkupEvent::End => Some(Seq::empty()),
    }
}

/// The tokens of the first `k` events of `text`; `None` if one of them is
/// an error or an unknown reference.
pub open spec fn tokens_before(text: Seq<char>, k: nat) -> Option<Seq<Token>>
    decreases k,
{
    if k == 0 {
        Some(Seq::empty())
    } else {
        match tokens_before(text, (k - 1) as nat) {
            Some(ts) => match markup_event(text, (k - 1) as nat) {
                Some(ev) => match event_tokens(ev) {
                    Some(more) => Some(ts + more),
                    None => None,
                },
                None => None,
            },
            None => None,
        }
    }
}

/// Event `k` ends the document, and no event before it is an error or an end.
pub open spec fn ends_at(text: Seq<char>, k: nat) -> bool {
    &&& markup_event(text, k) == Some(MarkupEvent::End)
    &&& forall|i: nat|
        i < k ==> #[trigger] markup_event(text, i) is Some && markup_event(text, i) != Some(
            MarkupEvent::End,
        )
}

/// The element tree of a document: the tree its tokens write out, when its
/// event stream ends (every event but the last takes up at least one byte, so
/// that is within one more event than the text has bytes) and holds no
/// error or unknown reference.
pub open spec fn document_tree(text: &str) -> Option<ElemModel> {
    if exists|k: nat| k <= text.spec_bytes().len() as usize && ends_at(text@, k) {
        let k = choose|k: nat| k <= text.spec_bytes().len() as usize && ends_at(text@, k);
        match tokens_before(text@, k) {
            Some(ts) => tree_of_tokens(ts),
            None => None,
        }
    } else {
        None
    }
}

proof fn lemma_ends_at_unique(text: Seq<char>, a: nat, b: nat)
    requires
        ends_at(text, a),
        ends_at(text, b),
    ensures
        a == b,
{
    if a < b {
        assert(markup_event(text, a) != Some(MarkupEvent::End));
    } else if b < a {
        assert(markup_event(text, b) != Some(MarkupEvent::End));
    }
}

proof fn lemma_tokens_before_fail(text: Seq<char>, i: nat, k: nat)
    requires
        i <= k,
        tokens_before(text, i) is None,
    ensures
        tokens_before(text, k) is None,
    decreases k - i,
{
    if k > i {
        lemma_tokens_before_fail(text, i, (k - 1) as nat);
    }
}

proof fn lemma_tokens_before_extends(text: Seq<char>, i: nat, k: nat)
    requires
        i <= k,
        tokens_before(text, k) is Some,
    ensures
        tokens_before(text, i) is Some,
        exists|more: Seq<Token>| tokens_before(text, k)->Some_0 == tokens_before(text, i)->Some_0 + more,
    decreases k - i,
{
    if k > i {
        lemma_tokens_before_extends(text, i, (k - 1) as nat);
        let more = choose|more: Seq<Token>|
            tokens_before(text, (k - 1) as nat)->Some_0 == tokens_before(text, i)->Some_0 + more;
        let last = event_tokens(markup_event(text, (k - 1) as nat)->Some_0)->Some_0;
        assert(tokens_before(text, k)->Some_0 =~= tokens_before(text, i)->Some_0 + (more + last));
    } else {
        assert(tokens_before(text, k)->Some_0 =~= tokens_before(text, i)->Some_0 + Seq::<Token>::empty());
    }
}

proof fn lemma_steps_single(s: BuildState, t: Token)
    ensures
        steps(s, seq![t]) == step(s, t),
{
    assert(seq![t].drop_last() =~= Seq::<Token>::empty());
    assert(seq![t].last() == t);
    assert(steps(s, Seq::<Token>::empty()) == s);
}

proof fn lemma_steps_pair(s: BuildState, a: Token, b: Token)
    ensures
        steps(s, seq![a, b]) == step(step(s, a), b),
{
    assert(seq![a, b].drop_last() =~= seq![a]);
    assert(seq![a, b].last() == b);
    lemma_steps_single(s, a);
}

/// Feeds one event to the builder. `Ok(true)` once the document has ended.
pub fn apply_event(builder: &mut TreeBuilder, event: XmlEvent) -> (r: Result<bool, DecodeError>)
    requires
        old(builder).wf(),
        !old(builder)@.failed,
    ensures
        match event_tokens(event@) {
            Some(ts) => (r is Ok <==> !steps(old(builder)@, ts).failed) && (r is Ok ==> (
            final(builder).wf() && final(builder)@ == steps(old(builder)@, ts))),
            None => r is Err,
        },
        r matches Ok(done) ==> done == (event is End),
        r matches Err(e) ==> !e.is_schema(),
{
    let ghost ev = event@;
    match event {
        XmlEvent::Open(name) => {
            proof {
                lemma_steps_single(builder@, Token::Open(name@));
            }
            match builder.open_element(name) {
                Ok(()) => Ok(false),
                Err(e) => Err(e),
            }
        },
        XmlEvent::Close(name) => {
            proof {
                lemma_steps_single(builder@, Token::Close(name@));
            }
            match builder.close_element(&name) {
                Ok(()) => Ok(false),
                Err(e) => Err(e),
            }
        },
        XmlEvent::Empty(name) => {
            proof {
                lemma_steps_pair(builder@, Token::Open(name@), Token::Close(name@));
            }
            let closing = name.clone();
            match builder.open_element(name) {
                Ok(()) => {},
                Err(e) => return Err(e),
            }
            match builder.close_element(&closing) {
                Ok(()) => Ok(false),
                Err(e) => Err(e),
            }
        },
        XmlEvent::Text(t) => {
            proof {
                lemma_steps_single(builder@, Token::Chars(t@));
            }
            match builder.add_text(t) {
                Ok(()) => Ok(false),
                Err(e) => Err(e),
            }
        },
        XmlEvent::Reference(name) => match resolve_reference(&name) {
            Some(t) => {
                proof {
                    lemma_steps_single(builder@, Token::Chars(t@));
                }
                match builder.add_text(t) {
                    Ok(()) => Ok(false),
                    Err(e) => Err(e),
                }
            },
            None => Err(DecodeError::Syntax("unknown entity reference".to_owned())),
        },
        XmlEvent::Skip => {
            assert(steps(builder@, Seq::<Token>::empty()) == builder@);
            Ok(false)
        },
        XmlEvent::End => {
            assert(steps(builder@, Seq::<Token>::empty()) == builder@);
            Ok(true)
        },
    }
}

/// Reads markup text into its element tree: it succeeds exactly when the
/// document has one, and returns it. Every failure is a `Syntax` error.
pub fn parse_document(text: &str) -> (r: Result<XmlElement, DecodeError>)
    ensures
        r is Ok <==> document_tree(text) is Some,
        r matches Ok(root) ==> document_tree(text) == Some(root@),
        r matches Err(e) ==> !e.is_schema(),
{
    let mut reader = MarkupReader::new(text);
    let mut builder = TreeBuilder::new();
    let ghost t = text@;
    let ghost nb = text.spec_bytes().len() as usize;
    let n = text.len();
    let ghost mut toks: Seq<Token> = Seq::empty();
    let mut i: usize = 0;
    loop
        invariant
            n == nb,
            nb == text.spec_bytes().len() as usize,
            t == text@,
            reader.text() == t,
            reader.index() == i,
            i <= n,
            builder.wf(),
            tokens_before(t, i as nat) == Some(toks),
            builder@ == steps(initial_state(), toks),
            !builder@.failed,
            forall|j: nat|
                j < i ==> #[trigger] markup_event(t, j) is Some && markup_event(t, j) != Some(
                    MarkupEvent::End,
                ),
        decreases n - i,
    {
        let event = match reader.next_event() {
            Ok(ev) => ev,
            Err(e) => {
                proof {
                    assert forall|k: nat| k <= nb implies !ends_at(t, k) by {
                        if k > i {
                            assert(markup_event(t, i as nat) is None);
                        } else if k < i {
                            assert(markup_event(t, k) != Some(MarkupEvent::End));
                        }
                    }
                }
                return Err(DecodeError::Syntax(error_text(&e)));
            },
        };
        let ghost ev = event@;
        let ghost before = builder@;
        let ghost next = tokens_before(t, (i + 1) as nat);
        match apply_event(&mut builder, event) {
            Ok(true) => {
                proof {
                    assert(ev == MarkupEvent::End);
                    assert(tokens_before(t, (i + 1) as nat) == Some(toks + Seq::<Token>::empty()));
                    assert(toks + Seq::<Token>::empty() =~= toks);
                    assert(ends_at(t, i as nat));
                    assert(i as nat <= nb);
                    assert(i as nat <= text.spec_bytes().len() as usize && ends_at(text@, i as nat));
                    let k = choose|k: nat| k <= text.spec_bytes().len() as usize && ends_at(text@, k);
                    lemma_ends_at_unique(t, k, i as nat);
                    assert(document_tree(text) == tree_of_tokens(toks));
                }
                return builder.finish();
            },
            Ok(false) => {
                proof {
                    assert(ev != MarkupEvent::End);
                    lemma_steps_append(initial_state(), toks, event_tokens(ev)->Some_0);
                    toks = toks + event_tokens(ev)->Some_0;
                }
            },
            Err(e) => {
                proof {
                    assert forall|k: nat| k <= nb && ends_at(t, k) implies tokens_before(t, k) is None
                        || tree_of_tokens(tokens_before(t, k)->Some_0) is None by {
                        assert(k > i) by {
                            if k < i {
                                assert(markup_event(t, k) != Some(MarkupEvent::End));
                            }
                        }
                        if event_tokens(ev) is None {
                            lemma_tokens_before_fail(t, (i + 1) as nat, k);
                        } else {
                            let ts = toks + event_tokens(ev)->Some_0;
                            assert(tokens_before(t, (i + 1) as nat) == Some(ts));
                            lemma_steps_append(initial_state(), toks, event_tokens(ev)->Some_0);
                            if tokens_before(t, k) is Some {
                                lemma_tokens_before_extends(t, (i + 1) as nat, k);
                                let more = choose|more: Seq<Token>|
                                    tokens_before(t, k)->Some_0 == ts + more;
                                lemma_steps_append(initial_state(), ts, more);
                                lemma_steps_failed(steps(initial_state(), ts), more);
                            }
                        }
                    }
                }
                return Err(e);
            },
        }
        if i == n {
            proof {
                assert forall|k: nat| k <= nb implies !ends_at(t, k) by {
                    assert(markup_event(t, k) != Some(MarkupEvent::End));
                }
            }
            return Err(DecodeError::Syntax("the document does not end".to_owned()));
        }
        i = i + 1;
    }
}

} // verus!
