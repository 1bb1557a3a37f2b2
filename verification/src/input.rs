//! Input tokenizer and editor.
//!
//! A raw command line is split by a single left-to-right scan with three
//! states (normal, inside double quotes, after a backslash). Double quotes
//! toggle the quoting state and are not copied into the token text; a
//! backslash escapes the next character and is itself never copied; space and
//! tab outside quotes end the current token. An input that ends inside an
//! open quote yields no tokens at all. Each token records the half-open byte
//! range it was derived from in the raw line.

use vstd::prelude::*;
use vstd::string::StrSliceExecFns;
use vstd::pervasive::VecAdditionalExecFns;
use vstd::utf8::encode_scalar;
use vstd::utf8::encode_utf8;
use vstd::utf8::char_is_scalar;

verus! {

broadcast use vstd::slice::group_slice_axioms;

/// Errors that can occur during input processing.
#[derive(Debug, Clone, PartialEq, Eq, Structural)]
pub enum InputError {
    /// A token index was out of bounds for the current token list.
    InvalidTokenIndex(usize),
    /// The input ended while a double-quoted section was still open.
    UnmatchedQuote,
}

/// Represents a token in the command line.
#[derive(Debug)]
pub struct Token {
    /// The text content of the token.
    pub text: String,
    /// The byte range in the original input string.
    pub range: (usize, usize),
}

/// State for the input line and editor.
pub struct InputState {
    /// The raw input string.
    pub raw_input: String,
    /// The tokenized input.
    pub tokens: Vec<Token>,
    /// The token text currently being edited, if any.
    pub editing: Option<String>,
}

/// The two characters that end a token outside quotes.
pub open spec fn is_separator(c: char) -> bool {
    c == ' ' || c == '\t'
}

/// Whitespace in the sense of Unicode's White_Space property, the notion the
/// rebuild step uses to decide whether a token text needs quoting.
pub open spec fn is_whitespace_char(c: char) -> bool {
    let u = c as u32;
    ||| (0x09 <= u && u <= 0x0D)
    ||| u == 0x20
    ||| u == 0x85
    ||| u == 0xA0
    ||| u == 0x1680
    ||| (0x2000 <= u && u <= 0x200A)
    ||| u == 0x2028
    ||| u == 0x2029
    ||| u == 0x202F
    ||| u == 0x205F
    ||| u == 0x3000
}

pub(crate) fn is_whitespace_char_exec(c: char) -> (r: bool)
    ensures
        r == is_whitespace_char(c),
{
    let u = c as u32;
    (0x09 <= u && u <= 0x0D) || u == 0x20 || u == 0x85 || u == 0xA0 || u == 0x1680 || (0x2000 <= u
        && u <= 0x200A) || u == 0x2028 || u == 0x2029 || u == 0x202F || u == 0x205F || u == 0x3000
}

/// A token as the scanner's model produces it: its text and the half-open
/// range of character indices it covers in the raw line.
pub struct SpecToken {
    pub text: Seq<char>,
    pub start: int,
    pub end: int,
}

/// Scanner state: the tokens emitted so far, the text collected for the
/// current token, the character index where the current token's range began,
/// and the two mode flags.
pub struct ScanState {
    pub toks: Seq<SpecToken>,
    pub cur: Seq<char>,
    pub start: int,
    pub in_quotes: bool,
    pub escaped: bool,
}

pub open spec fn scan_init() -> ScanState {
    ScanState { toks: seq![], cur: seq![], start: 0, in_quotes: false, escaped: false }
}

/// One step of the scan, on the character at index `i`.
pub open spec fn scan_step(st: ScanState, c: char, i: int) -> ScanState {
    if st.escaped {
        ScanState { cur: st.cur.push(c), escaped: false, ..st }
    } else if c == '\\' {
        ScanState { escaped: true, ..st }
    } else if c == '"' {
        ScanState { in_quotes: !st.in_quotes, ..st }
    } else if is_separator(c) && !st.in_quotes {
        if st.cur.len() > 0 {
            ScanState {
                toks: st.toks.push(SpecToken { text: st.cur, start: st.start, end: i }),
                cur: seq![],
                start: i + 1,
                ..st
            }
        } else {
            ScanState { start: i + 1, ..st }
        }
    } else {
        ScanState { cur: st.cur.push(c), ..st }
    }
}

/// The scan carried from character index `i` to the end of `s`.
pub open spec fn scan_run(st: ScanState, s: Seq<char>, i: int) -> ScanState
    decreases s.len() - i,
{
    if i < 0 || i >= s.len() {
        st
    } else {
        scan_run(scan_step(st, s[i], i), s, i + 1)
    }
}

/// End of input: an open quote is the one detectable error; otherwise a last
/// nonempty token, ending at character index `n`, is emitted.
pub open spec fn scan_finish(st: ScanState, n: int) -> Option<Seq<SpecToken>> {
    if st.in_quotes {
        None
    } else if st.cur.len() > 0 {
        Some(st.toks.push(SpecToken { text: st.cur, start: st.start, end: n }))
    } else {
        Some(st.toks)
    }
}

/// The tokenization of a raw line: its tokens with character-index ranges,
/// or `None` when a double quote is left open.
pub open spec fn tokenize_spec(s: Seq<char>) -> Option<Seq<SpecToken>> {
    scan_finish(scan_run(scan_init(), s, 0), s.len() as int)
}

/// The texts of a sequence of model tokens.
pub open spec fn token_texts(toks: Seq<SpecToken>) -> Seq<Seq<char>> {
    toks.map_values(|t: SpecToken| t.text)
}

/// Byte offset of character index `j` in `s` under UTF-8 encoding.
pub open spec fn byte_pos(s: Seq<char>, j: int) -> int {
    encode_utf8(s.subrange(0, j)).len() as int
}

/// Number of bytes in the UTF-8 encoding of `c`.
pub open spec fn utf8_len(c: char) -> int {
    encode_scalar(c as u32).len() as int
}

proof fn lemma_encode_push(a: Seq<char>, c: char)
    ensures
        encode_utf8(a.push(c)) == encode_utf8(a) + encode_scalar(c as u32),
    decreases a.len(),
{
    if a.len() == 0 {
        assert(a.push(c)[0] == c);
        assert(a.push(c).drop_first() =~= Seq::<char>::empty());
        assert(encode_utf8(a.push(c).drop_first()) == Seq::<u8>::empty());
        assert(encode_utf8(a) == Seq::<u8>::empty());
        assert(encode_utf8(a.push(c)) =~= encode_utf8(a) + encode_scalar(c as u32));
    } else {
        assert(a.push(c).drop_first() =~= a.drop_first().push(c));
        lemma_encode_push(a.drop_first(), c);
        assert(encode_utf8(a.push(c)) =~= encode_utf8(a) + encode_scalar(c as u32));
    }
}

proof fn lemma_byte_pos_step(s: Seq<char>, j: int)
    requires
        0 <= j < s.len(),
    ensures
        byte_pos(s, j + 1) == byte_pos(s, j) + utf8_len(s[j]),
{
    assert(s.subrange(0, j + 1) =~= s.subrange(0, j).push(s[j]));
    lemma_encode_push(s.subrange(0, j), s[j]);
}

proof fn lemma_encode_concat(a: Seq<char>, b: Seq<char>)
    ensures
        encode_utf8(a + b) == encode_utf8(a) + encode_utf8(b),
    decreases a.len(),
{
    if a.len() == 0 {
        assert(a + b =~= b);
        assert(encode_utf8(a) + encode_utf8(b) =~= encode_utf8(b));
    } else {
        assert((a + b).drop_first() =~= a.drop_first() + b);
        lemma_encode_concat(a.drop_first(), b);
        assert(encode_utf8(a + b) =~= encode_utf8(a) + encode_utf8(b));
    }
}

proof fn lemma_byte_pos_bound(s: Seq<char>, j: int)
    requires
        0 <= j <= s.len(),
    ensures
        byte_pos(s, j) <= encode_utf8(s).len(),
        byte_pos(s, j) >= 0,
{
    assert(s =~= s.subrange(0, j) + s.subrange(j, s.len() as int));
    lemma_encode_concat(s.subrange(0, j), s.subrange(j, s.len() as int));
}

fn utf8_len_exec(c: char) -> (n: usize)
    ensures
        n as int == utf8_len(c),
        1 <= n <= 4,
{
    proof {
        char_is_scalar(c);
    }
    let u = c as u32;
    if u < 0x80 {
        1
    } else if u < 0x800 {
        2
    } else if u < 0x10000 {
        3
    } else {
        4
    }
}

/// Collect the characters of `s` into a vector.
pub(crate) fn chars_of(s: &str) -> (v: Vec<char>)
    ensures
        v@ == s@,
{
    let n = s.unicode_len();
    let mut v: Vec<char> = Vec::new();
    let mut i: usize = 0;
    while i < n
        invariant
            i <= n,
            n == s@.len(),
            v@ == s@.subrange(0, i as int),
        decreases n - i,
    {
        let c = s.get_char(i);
        assert(s@.subrange(0, i + 1 as int) =~= s@.subrange(0, i as int).push(s@[i as int]));
        v.push(c);
        i = i + 1;
    }
    assert(v@ =~= s@);
    v
}

/// Relies on `String::push`: appends exactly the given character.
#[verifier::external_body]
pub(crate) fn push_char(s: &mut String, c: char)
    ensures
        final(s)@ == old(s)@.push(c),
{
    s.push(c)
}

impl Default for InputState {
    fn default() -> (r: Self)
        ensures
            r.raw_input@ == Seq::<char>::empty(),
            r.tokens@ == Seq::<Token>::empty(),
            r.editing is None,
    {
        InputState { raw_input: String::new(), tokens: Vec::new(), editing: None }
    }
}

/// Texts-only scanner state: the same scan as [`ScanState`], with the
/// character positions left out. The round-trip laws are stated over it.
#[verifier::ext_equal]
pub struct TokState {
    pub acc: Seq<Seq<char>>,
    pub cur: Seq<char>,
    pub in_quotes: bool,
    pub escaped: bool,
}

pub open spec fn tok_init() -> TokState {
    TokState { acc: seq![], cur: seq![], in_quotes: false, escaped: false }
}

pub open spec fn tok_step(st: TokState, c: char) -> TokState {
    if st.escaped {
        TokState { cur: st.cur.push(c), escaped: false, ..st }
    } else if c == '\\' {
        TokState { escaped: true, ..st }
    } else if c == '"' {
        TokState { in_quotes: !st.in_quotes, ..st }
    } else if is_separator(c) && !st.in_quotes {
        if st.cur.len() > 0 {
            TokState { acc: st.acc.push(st.cur), cur: seq![], ..st }
        } else {
            st
        }
    } else {
        TokState { cur: st.cur.push(c), ..st }
    }
}

pub open spec fn tok_run(st: TokState, s: Seq<char>) -> TokState
    decreases s.len(),
{
    if s.len() == 0 {
        st
    } else {
        tok_run(tok_step(st, s[0]), s.drop_first())
    }
}

pub open spec fn tok_finish(st: TokState) -> Option<Seq<Seq<char>>> {
    if st.in_quotes {
        None
    } else if st.cur.len() > 0 {
        Some(st.acc.push(st.cur))
    } else {
        Some(st.acc)
    }
}

/// The token texts of a raw line, or `None` when a double quote is left
/// open.
pub open spec fn tokenize_texts(s: Seq<char>) -> Option<Seq<Seq<char>>> {
    tok_finish(tok_run(tok_init(), s))
}

/// The positional and the texts-only scanner states agree.
spec fn states_agree(fst: ScanState, tst: TokState) -> bool {
    &&& token_texts(fst.toks) == tst.acc
    &&& fst.cur == tst.cur
    &&& fst.in_quotes == tst.in_quotes
    &&& fst.escaped == tst.escaped
}

proof fn lemma_step_agree(fst: ScanState, tst: TokState, c: char, i: int)
    requires
        states_agree(fst, tst),
    ensures
        states_agree(scan_step(fst, c, i), tok_step(tst, c)),
{
    assert forall|toks: Seq<SpecToken>, t: SpecToken|
        #[trigger] token_texts(toks.push(t)) == token_texts(toks).push(t.text) by {
        assert(token_texts(toks.push(t)) =~= token_texts(toks).push(t.text));
    }
}

proof fn lemma_run_agree(fst: ScanState, tst: TokState, s: Seq<char>, i: int)
    requires
        states_agree(fst, tst),
        0 <= i <= s.len(),
    ensures
        states_agree(scan_run(fst, s, i), tok_run(tst, s.subrange(i, s.len() as int))),
    decreases s.len() - i,
{
    if i < s.len() {
        let rest = s.subrange(i, s.len() as int);
        assert(rest[0] == s[i]);
        assert(rest.drop_first() =~= s.subrange(i + 1, s.len() as int));
        lemma_step_agree(fst, tst, s[i], i);
        lemma_run_agree(scan_step(fst, s[i], i), tok_step(tst, s[i]), s, i + 1);
    }
}

/// The positional tokenization and the texts-only tokenization agree: they
/// fail together, and on success the former's texts are the latter.
pub proof fn lemma_tokenize_texts_agree(s: Seq<char>)
    ensures
        tokenize_spec(s) is Some <==> tokenize_texts(s) is Some,
        tokenize_spec(s) is Some ==> token_texts(tokenize_spec(s).unwrap()) == tokenize_texts(
            s,
        ).unwrap(),
{
    assert(token_texts(scan_init().toks) =~= tok_init().acc);
    lemma_run_agree(scan_init(), tok_init(), s, 0);
    assert(s.subrange(0, s.len() as int) =~= s);
    let fst = scan_run(scan_init(), s, 0);
    let tst = tok_run(tok_init(), s);
    if !fst.in_quotes && fst.cur.len() > 0 {
        let t = SpecToken { text: fst.cur, start: fst.start, end: s.len() as int };
        assert(token_texts(fst.toks.push(t)) =~= token_texts(fst.toks).push(t.text));
    }
}

proof fn lemma_tok_run_concat(st: TokState, a: Seq<char>, b: Seq<char>)
    ensures
        tok_run(st, a + b) == tok_run(tok_run(st, a), b),
    decreases a.len(),
{
    if a.len() == 0 {
        assert(a + b =~= b);
    } else {
        assert((a + b)[0] == a[0]);
        assert((a + b).drop_first() =~= a.drop_first() + b);
        lemma_tok_run_concat(tok_step(st, a[0]), a.drop_first(), b);
    }
}

/// A text free of double quotes and backslashes.
pub open spec fn plain_text(t: Seq<char>) -> bool {
    forall|k: int| 0 <= k < t.len() ==> t[k] != '"' && t[k] != '\\'
}

/// A text the rebuild-and-retokenize round trip preserves: nonempty and free
/// of double quotes and backslashes.
pub open spec fn clean_text(t: Seq<char>) -> bool {
    t.len() > 0 && plain_text(t)
}

pub open spec fn clean_texts(ts: Seq<Seq<char>>) -> bool {
    forall|k: int| 0 <= k < ts.len() ==> clean_text(#[trigger] ts[k])
}

proof fn lemma_run_quoted(st: TokState, t: Seq<char>)
    requires
        st.in_quotes,
        !st.escaped,
        plain_text(t),
    ensures
        tok_run(st, t) == (TokState { cur: st.cur + t, ..st }),
    decreases t.len(),
{
    if t.len() == 0 {
        assert(st.cur + t =~= st.cur);
        assert(tok_run(st, t) =~= (TokState { cur: st.cur + t, ..st }));
    } else {
        let c = t[0];
        let st1 = tok_step(st, c);
        assert(st1 == (TokState { cur: st.cur.push(c), ..st }));
        lemma_run_quoted(st1, t.drop_first());
        assert(st.cur.push(c) + t.drop_first() =~= st.cur + t);
    }
}

proof fn lemma_run_bare(st: TokState, t: Seq<char>)
    requires
        !st.in_quotes,
        !st.escaped,
        plain_text(t),
        forall|k: int| 0 <= k < t.len() ==> !is_separator(t[k]),
    ensures
        tok_run(st, t) == (TokState { cur: st.cur + t, ..st }),
    decreases t.len(),
{
    if t.len() == 0 {
        assert(st.cur + t =~= st.cur);
        assert(tok_run(st, t) =~= (TokState { cur: st.cur + t, ..st }));
    } else {
        let c = t[0];
        let st1 = tok_step(st, c);
        assert(st1 == (TokState { cur: st.cur.push(c), ..st }));
        lemma_run_bare(st1, t.drop_first());
        assert(st.cur.push(c) + t.drop_first() =~= st.cur + t);
    }
}

proof fn lemma_run_quoted_text(acc: Seq<Seq<char>>, t: Seq<char>)
    requires
        clean_text(t),
    ensures
        tok_run(
            TokState { acc, cur: seq![], in_quotes: false, escaped: false },
            quoted_if_ws(t),
        ) == (TokState { acc, cur: t, in_quotes: false, escaped: false }),
{
    let st0 = TokState { acc, cur: seq![], in_quotes: false, escaped: false };
    if contains_ws(t) {
        let q: Seq<char> = seq!['"'];
        assert(quoted_if_ws(t) == q + t + q);
        assert(q + t + q =~= q + (t + q));
        lemma_tok_run_concat(st0, q, t + q);
        assert(q[0] == '"');
        assert(q.len() == 1);
        assert(q.drop_first() =~= Seq::<char>::empty());
        let st1 = TokState { acc, cur: seq![], in_quotes: true, escaped: false };
        assert(tok_run(st0, q) == tok_run(tok_step(st0, q[0]), q.drop_first()));
        assert(tok_step(st0, q[0]) =~= st1);
        assert(tok_run(st1, q.drop_first()) == st1);
        lemma_tok_run_concat(st1, t, q);
        lemma_run_quoted(st1, t);
        let st2 = TokState { acc, cur: t, in_quotes: true, escaped: false };
        assert(tok_run(st1, t) =~= st2) by {
            assert(Seq::<char>::empty() + t =~= t);
        }
        assert(tok_run(st2, q) == tok_run(tok_step(st2, q[0]), q.drop_first()));
        assert(tok_step(st2, q[0]) =~= (TokState { acc, cur: t, in_quotes: false, escaped: false }));
        assert(tok_run(st2, q) =~= (TokState { acc, cur: t, in_quotes: false, escaped: false }));
    } else {
        assert(forall|k: int| 0 <= k < t.len() ==> !is_whitespace_char(t[k])) by {
            assert(!contains_ws(t));
        }
        assert forall|k: int| 0 <= k < t.len() implies !is_separator(t[k]) by {
            assert(!is_whitespace_char(t[k]));
        }
        lemma_run_bare(st0, t);
        assert(Seq::<char>::empty() + t =~= t);
        assert(tok_run(st0, t) =~= (TokState { acc, cur: t, in_quotes: false, escaped: false }));
    }
}

proof fn lemma_scan_rebuild(texts: Seq<Seq<char>>, acc: Seq<Seq<char>>)
    requires
        clean_texts(texts),
    ensures
        tok_finish(
            tok_run(
                TokState { acc, cur: seq![], in_quotes: false, escaped: false },
                rebuild_spec(texts),
            ),
        ) == Some(acc + texts),
    decreases texts.len(),
{
    let st0 = TokState { acc, cur: seq![], in_quotes: false, escaped: false };
    if texts.len() == 0 {
        assert(acc + texts =~= acc);
    } else if texts.len() == 1 {
        lemma_run_quoted_text(acc, texts[0]);
        assert(acc.push(texts[0]) =~= acc + texts);
    } else {
        let t0 = texts[0];
        let sp: Seq<char> = seq![' '];
        let rest = rebuild_spec(texts.drop_first());
        assert(rebuild_spec(texts) == quoted_if_ws(t0) + sp + rest);
        assert(quoted_if_ws(t0) + sp + rest =~= quoted_if_ws(t0) + (sp + rest));
        lemma_tok_run_concat(st0, quoted_if_ws(t0), sp + rest);
        lemma_run_quoted_text(acc, t0);
        let st1 = TokState { acc, cur: t0, in_quotes: false, escaped: false };
        lemma_tok_run_concat(st1, sp, rest);
        assert(sp[0] == ' ');
        assert(sp.len() == 1);
        assert(sp.drop_first() =~= Seq::<char>::empty());
        let st2 = TokState { acc: acc.push(t0), cur: seq![], in_quotes: false, escaped: false };
        assert(tok_run(st1, sp) == tok_run(tok_step(st1, sp[0]), sp.drop_first()));
        assert(tok_step(st1, sp[0]) =~= st2);
        assert(tok_run(st1, sp) =~= st2);
        lemma_scan_rebuild(texts.drop_first(), acc.push(t0));
        assert(acc.push(t0) + texts.drop_first() =~= acc + texts);
    }
}

/// Law: the raw line rebuilt from token texts re-tokenizes to exactly those
/// texts, provided every text is nonempty and free of double quotes and
/// backslashes. This is the positive side of the edit round trip; a text
/// with an embedded double quote or backslash is not covered, and such a
/// text need not round-trip at all.
pub proof fn lemma_rebuild_round_trip(texts: Seq<Seq<char>>)
    requires
        clean_texts(texts),
    ensures
        tokenize_texts(rebuild_spec(texts)) == Some(texts),
{
    lemma_scan_rebuild(texts, seq![]);
    assert(seq![] + texts =~= texts);
}

spec fn clean_state(st: TokState) -> bool {
    &&& clean_texts(st.acc)
    &&& plain_text(st.cur)
}

proof fn lemma_run_clean(st: TokState, s: Seq<char>)
    requires
        clean_state(st),
        !st.escaped,
        !s.contains('\\'),
    ensures
        clean_state(tok_run(st, s)),
        !tok_run(st, s).escaped,
    decreases s.len(),
{
    if s.len() > 0 {
        let c = s[0];
        assert(c != '\\') by {
            if c == '\\' {
                assert(s.contains('\\'));
            }
        }
        let st1 = tok_step(st, c);
        assert(clean_state(st1)) by {
            if c != '"' && !(is_separator(c) && !st.in_quotes) {
                assert(plain_text(st.cur.push(c)));
            }
        }
        assert(!s.drop_first().contains('\\')) by {
            if s.drop_first().contains('\\') {
                let k = choose|k: int|
                    0 <= k < s.drop_first().len() && s.drop_first()[k] == '\\';
                assert(s[k + 1] == '\\');
                assert(s.contains('\\'));
            }
        }
        lemma_run_clean(st1, s.drop_first());
    }
}

/// Law: on a backslash-free line that tokenizes, every token text is
/// nonempty and free of double quotes and backslashes.
pub proof fn lemma_tokenize_texts_clean(s: Seq<char>)
    requires
        !s.contains('\\'),
        tokenize_texts(s) is Some,
    ensures
        clean_texts(tokenize_texts(s).unwrap()),
{
    lemma_run_clean(tok_init(), s);
}

/// Law: tokenizing is idempotent on balanced-quote, backslash-free input —
/// re-tokenizing the rebuild of its token texts yields the same texts again.
pub proof fn lemma_tokenize_idempotent(s: Seq<char>)
    requires
        !s.contains('\\'),
        tokenize_texts(s) is Some,
    ensures
        tokenize_texts(rebuild_spec(tokenize_texts(s).unwrap())) == Some(
            tokenize_texts(s).unwrap(),
        ),
{
    lemma_tokenize_texts_clean(s);
    lemma_rebuild_round_trip(tokenize_texts(s).unwrap());
}

/// The texts of the executable tokens.
pub open spec fn texts_of(ts: Seq<Token>) -> Seq<Seq<char>> {
    ts.map_values(|t: Token| t.text@)
}

/// Whether a text contains whitespace, and is therefore re-wrapped in double
/// quotes by the rebuild step.
pub open spec fn contains_ws(t: Seq<char>) -> bool {
    exists|k: int| 0 <= k < t.len() && is_whitespace_char(t[k])
}

/// A rebuilt token: wrapped in double quotes when its text contains
/// whitespace, else the text itself.
pub open spec fn quoted_if_ws(t: Seq<char>) -> Seq<char> {
    if contains_ws(t) {
        seq!['"'] + t + seq!['"']
    } else {
        t
    }
}

/// The raw line rebuilt from token texts: texts joined by single spaces,
/// re-quoted when they contain whitespace. The rebuild is lossy: embedded
/// quotes and backslashes are not re-escaped.
pub open spec fn rebuild_spec(texts: Seq<Seq<char>>) -> Seq<char>
    decreases texts.len(),
{
    if texts.len() == 0 {
        seq![]
    } else if texts.len() == 1 {
        quoted_if_ws(texts[0])
    } else {
        quoted_if_ws(texts[0]) + seq![' '] + rebuild_spec(texts.drop_first())
    }
}

proof fn lemma_rebuild_push(texts: Seq<Seq<char>>, t: Seq<char>)
    ensures
        texts.len() == 0 ==> rebuild_spec(texts.push(t)) == quoted_if_ws(t),
        texts.len() > 0 ==> rebuild_spec(texts.push(t)) == rebuild_spec(texts) + seq![' ']
            + quoted_if_ws(t),
    decreases texts.len(),
{
    if texts.len() == 0 {
        assert(texts.push(t)[0] == t);
    } else if texts.len() == 1 {
        assert(texts.push(t).drop_first() =~= seq![t]);
        assert(rebuild_spec(seq![t]) == quoted_if_ws(seq![t][0]));
        assert(seq![t][0] == t);
        assert(texts.push(t)[0] == texts[0]);
    } else {
        assert(texts.push(t).drop_first() =~= texts.drop_first().push(t));
        lemma_rebuild_push(texts.drop_first(), t);
        assert(texts.push(t)[0] == texts[0]);
        assert(rebuild_spec(texts.push(t)) =~= rebuild_spec(texts) + seq![' '] + quoted_if_ws(t));
    }
}

fn contains_ws_exec(t: &str) -> (r: bool)
    ensures
        r == contains_ws(t@),
{
    let n = t.unicode_len();
    let mut i: usize = 0;
    while i < n
        invariant
            i <= n,
            n == t@.len(),
            forall|k: int| 0 <= k < i ==> !is_whitespace_char(t@[k]),
        decreases n - i,
    {
        if is_whitespace_char_exec(t.get_char(i)) {
            assert(contains_ws(t@));
            return true;
        }
        i = i + 1;
    }
    false
}

/// The executable tokens match the scanner's model: same texts, and byte
/// ranges converted from the model's character-index ranges.
pub open spec fn tokens_match(ts: Seq<Token>, sts: Seq<SpecToken>, raw: Seq<char>) -> bool {
    &&& ts.len() == sts.len()
    &&& forall|k: int|
        0 <= k < ts.len() ==> {
            &&& (#[trigger] ts[k]).text@ == sts[k].text
            &&& ts[k].range.0 == byte_pos(raw, sts[k].start)
            &&& ts[k].range.1 == byte_pos(raw, sts[k].end)
        }
}

impl InputState {
    /// Create a new empty input state.
    pub fn new() -> (r: Self)
        ensures
            r.raw_input@ == Seq::<char>::empty(),
            r.tokens@ == Seq::<Token>::empty(),
            r.editing is None,
    {
        Self::default()
    }

    /// Tokenize the raw input into tokens.
    ///
    /// All-or-nothing: when a double quote is left open, the call fails and
    /// the token list comes back empty.
    pub fn tokenize(&mut self) -> (res: Result<(), InputError>)
        ensures
            final(self).raw_input == old(self).raw_input,
            final(self).editing == old(self).editing,
            res is Ok <==> tokenize_spec(old(self).raw_input@) is Some,
            match res {
                Ok(()) => tokens_match(
                    final(self).tokens@,
                    tokenize_spec(old(self).raw_input@).unwrap(),
                    old(self).raw_input@,
                ),
                Err(e) => {
                    &&& e == InputError::UnmatchedQuote
                    &&& final(self).tokens@ == Seq::<Token>::empty()
                },
            },
    {
        let ghost s: Seq<char> = self.raw_input@;
        let chars = chars_of(self.raw_input.as_str());
        let n = chars.len();
        let slen = self.raw_input.as_str().as_bytes().len();
        assert(slen == encode_utf8(s).len());

        let mut toks: Vec<Token> = Vec::new();
        let mut cur: String = String::new();
        let mut in_quotes: bool = false;
        let mut escaped: bool = false;
        let mut start_b: usize = 0;
        let mut b: usize = 0;
        let mut i: usize = 0;
        let ghost mut st = scan_init();

        while i < n
            invariant
                i <= n,
                n == s.len(),
                chars@ == s,
                slen == encode_utf8(s).len(),
                b as int == byte_pos(s, i as int),
                0 <= st.start <= i as int,
                start_b as int == byte_pos(s, st.start),
                cur@ == st.cur,
                in_quotes == st.in_quotes,
                escaped == st.escaped,
                tokens_match(toks@, st.toks, s),
                scan_run(st, s, i as int) == scan_run(scan_init(), s, 0),
            decreases n - i,
        {
            let c = chars[i];
            let clen = utf8_len_exec(c);
            proof {
                lemma_byte_pos_step(s, i as int);
                lemma_byte_pos_bound(s, i as int + 1);
                assert(scan_run(st, s, i as int) == scan_run(
                    scan_step(st, s[i as int], i as int),
                    s,
                    i as int + 1,
                ));
            }
            if escaped {
                push_char(&mut cur, c);
                escaped = false;
            } else if c == '\\' {
                escaped = true;
            } else if c == '"' {
                in_quotes = !in_quotes;
            } else if (c == ' ' || c == '\t') && !in_quotes {
                if !cur.as_str().is_empty() {
                    toks.push(Token { text: cur, range: (start_b, b) });
                    cur = String::new();
                }
                start_b = b + clen;
            } else {
                push_char(&mut cur, c);
            }
            proof {
                st = scan_step(st, s[i as int], i as int);
            }
            b = b + clen;
            i = i + 1;
        }

        proof {
            assert(scan_run(st, s, n as int) == st);
            assert(s.subrange(0, n as int) =~= s);
        }

        if in_quotes {
            self.tokens = Vec::new();
            return Err(InputError::UnmatchedQuote);
        }
        if !cur.as_str().is_empty() {
            toks.push(Token { text: cur, range: (start_b, slen) });
        }
        self.tokens = toks;
        Ok(())
    }

    /// Update the raw input and re-tokenize.
    pub fn set_input(&mut self, input: String) -> (res: Result<(), InputError>)
        ensures
            final(self).raw_input == input,
            final(self).editing == old(self).editing,
            res is Ok <==> tokenize_spec(input@) is Some,
            match res {
                Ok(()) => tokens_match(
                    final(self).tokens@,
                    tokenize_spec(input@).unwrap(),
                    input@,
                ),
                Err(e) => {
                    &&& e == InputError::UnmatchedQuote
                    &&& final(self).tokens@ == Seq::<Token>::empty()
                },
            },
    {
        self.raw_input = input;
        self.tokenize()
    }

    /// Clear the input.
    pub fn clear(&mut self)
        ensures
            final(self).raw_input@ == Seq::<char>::empty(),
            final(self).tokens@ == Seq::<Token>::empty(),
            final(self).editing is None,
    {
        self.raw_input = String::new();
        self.tokens = Vec::new();
        self.editing = None;
    }

    /// Start editing a token: its current text is copied into the scratch
    /// buffer. An out-of-range index fails and changes nothing.
    pub fn start_editing(&mut self, token_idx: usize) -> (res: Result<(), InputError>)
        ensures
            final(self).raw_input == old(self).raw_input,
            final(self).tokens@ == old(self).tokens@,
            res is Ok <==> token_idx < old(self).tokens@.len(),
            match res {
                Ok(()) => {
                    &&& final(self).editing is Some
                    &&& final(self).editing->0@ == old(self).tokens@[token_idx as int].text@
                },
                Err(e) => {
                    &&& e == InputError::InvalidTokenIndex(token_idx)
                    &&& final(self).editing == old(self).editing
                },
            },
    {
        if token_idx >= self.tokens.len() {
            return Err(InputError::InvalidTokenIndex(token_idx));
        }
        self.editing = Some(self.tokens[token_idx].text.clone());
        Ok(())
    }

    /// Cancel the current edit: the scratch buffer is discarded.
    pub fn cancel_edit(&mut self)
        ensures
            final(self).raw_input == old(self).raw_input,
            final(self).tokens@ == old(self).tokens@,
            final(self).editing is None,
    {
        self.editing = None;
    }

    /// Update the text of the token being edited; the content is not
    /// validated.
    pub fn update_editing(&mut self, text: String)
        ensures
            final(self).raw_input == old(self).raw_input,
            final(self).tokens@ == old(self).tokens@,
            final(self).editing == Some(text),
    {
        self.editing = Some(text);
    }

    /// Rebuild the raw input string from the token texts.
    ///
    /// The tokens keep their old byte ranges; after a rebuild they are stale
    /// until the line is tokenized again.
    pub fn rebuild_raw_input(&mut self)
        ensures
            final(self).raw_input@ == rebuild_spec(texts_of(old(self).tokens@)),
            final(self).tokens@ == old(self).tokens@,
            final(self).editing == old(self).editing,
    {
        let ghost texts: Seq<Seq<char>> = texts_of(self.tokens@);
        let mut raw = String::new();
        let n = self.tokens.len();
        let mut idx: usize = 0;
        proof {
            reveal_strlit(" ");
            reveal_strlit("\"");
            assert(" "@ =~= seq![' ']);
            assert("\""@ =~= seq!['"']);
        }
        while idx < n
            invariant
                idx <= n,
                n == self.tokens@.len(),
                texts == texts_of(self.tokens@),
                raw@ == rebuild_spec(texts.take(idx as int)),
                " "@ == seq![' '],
                "\""@ == seq!['"'],
            decreases n - idx,
        {
            proof {
                lemma_rebuild_push(texts.take(idx as int), texts[idx as int]);
                assert(texts.take(idx as int + 1) =~= texts.take(idx as int).push(
                    texts[idx as int],
                ));
            }
            if idx > 0 {
                raw.append(" ");
            }
            let t = &self.tokens[idx].text;
            if contains_ws_exec(t.as_str()) {
                raw.append("\"");
                raw.append(t.as_str());
                raw.append("\"");
                assert(raw@ =~= rebuild_spec(texts.take(idx as int + 1)));
            } else {
                raw.append(t.as_str());
                assert(raw@ =~= rebuild_spec(texts.take(idx as int + 1)));
            }
            idx = idx + 1;
        }
        proof {
            assert(texts.take(n as int) =~= texts);
        }
        self.raw_input = raw;
    }

    /// Commit the edited token: the scratch text replaces the token's text
    /// and the raw line is rebuilt from the token texts. Byte ranges are not
    /// recomputed and stay stale until re-tokenization. An out-of-range index
    /// fails and changes nothing; with no edit in progress nothing changes.
    pub fn commit_edit(&mut self, token_idx: usize) -> (res: Result<(), InputError>)
        ensures
            res is Ok <==> token_idx < old(self).tokens@.len(),
            match res {
                Ok(()) => match old(self).editing {
                    Some(e) => {
                        &&& final(self).tokens@.len() == old(self).tokens@.len()
                        &&& final(self).tokens@[token_idx as int].text@ == e@
                        &&& final(self).tokens@[token_idx as int].range
                            == old(self).tokens@[token_idx as int].range
                        &&& forall|k: int|
                            0 <= k < old(self).tokens@.len() && k != token_idx as int
                                ==> final(self).tokens@[k] == old(self).tokens@[k]
                        &&& final(self).editing is None
                        &&& final(self).raw_input@ == rebuild_spec(texts_of(final(self).tokens@))
                    },
                    None => *final(self) == *old(self),
                },
                Err(err) => {
                    &&& err == InputError::InvalidTokenIndex(token_idx)
                    &&& *final(self) == *old(self)
                },
            },
    {
        if token_idx >= self.tokens.len() {
            return Err(InputError::InvalidTokenIndex(token_idx));
        }
        let mut taken: Option<String> = None;
        core::mem::swap(&mut self.editing, &mut taken);
        match taken {
            Some(edited) => {
                let r = self.tokens[token_idx].range;
                self.tokens.set(token_idx, Token { text: edited, range: r });
                self.rebuild_raw_input();
            },
            None => {},
        }
        Ok(())
    }

    /// Get the full command string.
    pub fn get_command(&self) -> (r: String)
        ensures
            r@ == self.raw_input@,
    {
        self.raw_input.clone()
    }
}

} // verus!
