//! Extracting the HTML that Outlook encapsulates in RTF bodies (MS-OXRTFEX):
//! the RTF is read token by token; the contents of `\*\htmltag` groups and
//! the text outside `\htmlrtf` runs make up the HTML.

use vstd::prelude::*;

verus! {

/// The control words that the de-encapsulation acts on.
#[derive(Debug, Clone, Copy, PartialEq, Eq, Structural)]
pub enum WordKind {
    /// `\htmlrtf`: starts (or with parameter 0 ends) a run of RTF-only content.
    HtmlRtf,
    /// `\par` and `\line`: a line break.
    Par,
    /// `\tab`.
    Tab,
    /// `\u`: a Unicode character, followed by one fallback character.
    Unicode,
    /// `\fromhtml`: with parameter 1, marks RTF that encapsulates HTML.
    FromHtml,
    /// `\htmltag`: names a destination whose contents are HTML.
    HtmlTag,
    /// `\fonttbl`, `\colortbl`, `\stylesheet`, `\info`, `\pict`: destinations
    /// whose contents are never text.
    Destination,
    /// Any other control word.
    Other,
}

/// A numeric parameter of a control word: sign and magnitude, the
/// magnitude capped at `PARAM_CAP`.
#[derive(Debug, Clone, Copy, PartialEq, Eq, Structural)]
pub struct Param {
    pub negative: bool,
    pub magnitude: u32,
}

/// One token of RTF.
#[derive(Debug, Clone, Copy, PartialEq, Eq, Structural)]
pub enum RtfToken {
    GroupOpen,
    GroupClose,
    Word(WordKind, Option<Param>),
    /// A control symbol: a backslash and one character that is not a letter.
    Symbol(char),
    /// `\'hh`: a byte given in hexadecimal.
    Hex(u8),
    Text(char),
    /// Raw line breaks, and a backslash that ends the input or starts a
    /// malformed `\'` escape.
    Ignored,
}

/// The largest parameter magnitude kept; larger ones are capped to it.
pub const PARAM_CAP: u32 = 1_000_000;

pub open spec fn is_letter(c: char) -> bool {
    ('a' <= c && c <= 'z') || ('A' <= c && c <= 'Z')
}

pub open spec fn is_digit(c: char) -> bool {
    '0' <= c && c <= '9'
}

/// The end of the run of letters that starts at `i`.
pub open spec fn letters_end(s: Seq<char>, i: int) -> int
    decreases s.len() - i,
{
    if 0 <= i < s.len() && is_letter(s[i]) {
        letters_end(s, i + 1)
    } else {
        i
    }
}

/// The end of the run of digits that starts at `i`.
pub open spec fn digits_end(s: Seq<char>, i: int) -> int
    decreases s.len() - i,
{
    if 0 <= i < s.len() && is_digit(s[i]) {
        digits_end(s, i + 1)
    } else {
        i
    }
}

/// The decimal value of the digits in `s[i..j]`, capped at `PARAM_CAP`.
pub open spec fn digits_value(s: Seq<char>, i: int, j: int) -> int
    decreases j - i,
{
    if j <= i {
        0
    } else {
        let v = 10 * digits_value(s, i, j - 1) + (s[j - 1] as int - '0' as int);
        if v > PARAM_CAP {
            PARAM_CAP as int
        } else {
            v
        }
    }
}

/// The value of a hexadecimal digit.
pub open spec fn hex_value(c: char) -> Option<u8> {
    if '0' <= c && c <= '9' {
        Some((c as int - '0' as int) as u8)
    } else if 'a' <= c && c <= 'f' {
        Some((c as int - 'a' as int + 10) as u8)
    } else if 'A' <= c && c <= 'F' {
        Some((c as int - 'A' as int + 10) as u8)
    } else {
        None
    }
}

/// The kind of a control word, by its name.
pub open spec fn classify(name: Seq<char>) -> WordKind {
    if name == seq!['h', 't', 'm', 'l', 'r', 't', 'f'] {
        WordKind::HtmlRtf
    } else if name == seq!['p', 'a', 'r'] || name == seq!['l', 'i', 'n', 'e'] {
        WordKind::Par
    } else if name == seq!['t', 'a', 'b'] {
        WordKind::Tab
    } else if name == seq!['u'] {
        WordKind::Unicode
    } else if name == seq!['f', 'r', 'o', 'm', 'h', 't', 'm', 'l'] {
        WordKind::FromHtml
    } else if name == seq!['h', 't', 'm', 'l', 't', 'a', 'g'] {
        WordKind::HtmlTag
    } else if name == seq!['f', 'o', 'n', 't', 't', 'b', 'l'] || name == seq!['c', 'o', 'l', 'o', 'r', 't', 'b', 'l']
        || name == seq!['s', 't', 'y', 'l', 'e', 's', 'h', 'e', 'e', 't'] || name == seq!['i', 'n', 'f', 'o']
        || name == seq!['p', 'i', 'c', 't'] {
        WordKind::Destination
    } else {
        WordKind::Other
    }
}

/// The control word whose name starts at `i` (just after the backslash):
/// the token, and where the next token starts. A parameter is an optional
/// `-` and digits; one space after the word belongs to it.
pub open spec fn control_word(s: Seq<char>, i: int) -> (RtfToken, int) {
    let e = letters_end(s, i);
    let negative = s.len() > 1 && e < s.len() - 1 && s[e] == '-' && is_digit(s[e + 1]);
    let ds = if negative { e + 1 } else { e };
    let de = digits_end(s, ds);
    let param = if de > ds {
        Some(Param { negative, magnitude: digits_value(s, ds, de) as u32 })
    } else {
        None
    };
    let next = if de < s.len() && s[de] == ' ' { de + 1 } else { de };
    (RtfToken::Word(classify(s.subrange(i, e)), param), next)
}

/// The token that starts at `i`, and where the next one starts.
pub open spec fn next_token(s: Seq<char>, i: int) -> (RtfToken, int) {
    let c = s[i];
    if c == '{' {
        (RtfToken::GroupOpen, i + 1)
    } else if c == '}' {
        (RtfToken::GroupClose, i + 1)
    } else if c == '\\' {
        if i + 1 >= s.len() {
            (RtfToken::Ignored, i + 1)
        } else if is_letter(s[i + 1]) {
            control_word(s, i + 1)
        } else if s[i + 1] == '\'' {
            if i + 3 < s.len() && hex_value(s[i + 2]) is Some && hex_value(s[i + 3]) is Some {
                (RtfToken::Hex((hex_value(s[i + 2])->0 * 16 + hex_value(s[i + 3])->0) as u8), i + 4)
            } else {
                (RtfToken::Ignored, i + 2)
            }
        } else {
            (RtfToken::Symbol(s[i + 1]), i + 2)
        }
    } else if c == '\r' || c == '\n' {
        (RtfToken::Ignored, i + 1)
    } else {
        (RtfToken::Text(c), i + 1)
    }
}

/// What a group does to its contents.
#[derive(Debug, Clone, Copy, PartialEq, Eq, Structural)]
pub struct Frame {
    /// Inside a destination whose contents are dropped.
    pub skip: bool,
    /// Inside an `\htmltag` destination, whose contents are HTML.
    pub tag: bool,
    /// Inside a `\htmlrtf` run.
    pub suppress: bool,
}

/// The de-encapsulation's state between tokens.
pub struct Scan {
    /// The frames of the enclosing groups, outermost first.
    pub stack: Seq<Frame>,
    /// The frame of the current group.
    pub cur: Frame,
    /// A group has just been opened: a destination may follow.
    pub dest_pending: bool,
    /// `\*` has just followed the opening of a group.
    pub star: bool,
    /// The next text character or byte is the fallback of a `\u`.
    pub skip_fallback: bool,
    /// `\fromhtml1` has been seen.
    pub from_html: bool,
    /// The HTML extracted so far.
    pub out: Seq<char>,
}

/// Whether text in this frame is HTML.
pub open spec fn emits(f: Frame) -> bool {
    !f.skip && (f.tag || !f.suppress)
}

/// Appends text where the current frame lets it through.
pub open spec fn emit(st: Scan, t: Seq<char>) -> Scan {
    if emits(st.cur) {
        Scan { out: st.out + t, ..st }
    } else {
        st
    }
}

/// The code point of a character.
pub open spec fn char_code(c: char) -> int {
    c as int
}

/// The character of a `\u` parameter: negative values count down from
/// 65536; values that are not Unicode scalar values give U+FFFD.
pub open spec fn unicode_char(p: Option<Param>) -> char {
    let code: int = match p {
        None => -1,
        Some(p) => if p.negative {
            if p.magnitude <= 32768 { 65536 - p.magnitude } else { -1 }
        } else {
            p.magnitude as int
        },
    };
    if (0 <= code < 0xD800) || (0xE000 <= code <= 0x10FFFF) {
        choose|c: char| #[trigger] char_code(c) == code
    } else {
        '\u{FFFD}'
    }
}

/// The state after one token.
pub open spec fn step(st: Scan, t: RtfToken) -> Scan {
    match t {
        RtfToken::GroupOpen => Scan { stack: st.stack.push(st.cur), dest_pending: true, star: false, ..st },
        RtfToken::GroupClose => if st.stack.len() > 0 {
            Scan { stack: st.stack.drop_last(), cur: st.stack.last(), dest_pending: false, star: false, ..st }
        } else {
            Scan { dest_pending: false, star: false, ..st }
        },
        RtfToken::Symbol(c) => if c == '*' && st.dest_pending {
            Scan { star: true, ..st }
        } else {
            let st2 = Scan { dest_pending: false, star: false, ..st };
            if c == '{' || c == '}' || c == '\\' {
                emit(st2, seq![c])
            } else {
                st2
            }
        },
        RtfToken::Word(k, p) => if st.dest_pending && st.star {
            let f = if k == WordKind::HtmlTag {
                Frame { skip: st.cur.skip, tag: true, suppress: false }
            } else {
                Frame { skip: true, ..st.cur }
            };
            Scan { cur: f, dest_pending: false, star: false, ..st }
        } else if st.dest_pending && k == WordKind::Destination {
            Scan { cur: Frame { skip: true, ..st.cur }, dest_pending: false, star: false, ..st }
        } else {
            let st2 = Scan { dest_pending: false, star: false, ..st };
            match k {
                WordKind::HtmlRtf => Scan {
                    cur: Frame { suppress: !(p matches Some(q) && q.magnitude == 0), ..st2.cur },
                    ..st2
                },
                WordKind::Par => emit(st2, seq!['\r', '\n']),
                WordKind::Tab => emit(st2, seq!['\t']),
                WordKind::Unicode => Scan { skip_fallback: true, ..emit(st2, seq![unicode_char(p)]) },
                WordKind::FromHtml => if p == Some(Param { negative: false, magnitude: 1 }) {
                    Scan { from_html: true, ..st2 }
                } else {
                    st2
                },
                _ => st2,
            }
        },
        RtfToken::Hex(b) => {
            let st2 = Scan { dest_pending: false, star: false, ..st };
            if st2.skip_fallback {
                Scan { skip_fallback: false, ..st2 }
            } else {
                emit(st2, seq![b as char])
            }
        },
        RtfToken::Text(c) => {
            let st2 = Scan { dest_pending: false, star: false, ..st };
            if st2.skip_fallback {
                Scan { skip_fallback: false, ..st2 }
            } else {
                emit(st2, seq![c])
            }
        },
        RtfToken::Ignored => st,
    }
}

/// The state after the tokens from `i` to the end.
pub open spec fn scan_from(s: Seq<char>, i: int, st: Scan) -> Scan
    decreases s.len() - i,
{
    if i < 0 || i >= s.len() {
        st
    } else {
        let (t, j) = next_token(s, i);
        if j <= i || j > s.len() {
            st
        } else {
            scan_from(s, j, step(st, t))
        }
    }
}

/// The state at the start.
pub open spec fn initial_scan() -> Scan {
    Scan {
        stack: Seq::empty(),
        cur: Frame { skip: false, tag: false, suppress: false },
        dest_pending: false,
        star: false,
        skip_fallback: false,
        from_html: false,
        out: Seq::empty(),
    }
}

/// The HTML encapsulated in RTF: `None` where the RTF carries no
/// `\fromhtml1`, else the extracted text.
pub open spec fn spec_rtf_to_html(rtf: Seq<char>) -> Option<Seq<char>> {
    let end = scan_from(rtf, 0, initial_scan());
    if end.from_html {
        Some(end.out)
    } else {
        None
    }
}

/// The characters of a string, in order.
fn chars_of(s: &str) -> (v: Vec<char>)
    ensures
        v@ == s@,
{
    let mut v: Vec<char> = Vec::new();
    for c in it: s.chars()
        invariant
            v@ == it.seq().take(it.index() as int),
    {
        v.push(c);
    }
    v
}

/// Appends a character with `String::push`. Claimed, as std documents:
/// the string gains that character at its end.
#[verifier::external_body]
fn push_char(s: &mut String, c: char)
    ensures
        final(s)@ == old(s)@.push(c),
{
    s.push(c)
}

/// Converts a code point with `char::from_u32`. Claimed, as std documents:
/// it gives the character exactly for the Unicode scalar values.
#[verifier::external_body]
fn char_from_u32(code: u32) -> (r: Option<char>)
    ensures
        r is Some <==> (code < 0xD800 || (0xE000 <= code && code <= 0x10FFFF)),
        r matches Some(c) ==> c as int == code as int,
{
    char::from_u32(code)
}

fn is_letter_c(c: char) -> (b: bool)
    ensures
        b == is_letter(c),
{
    ('a' <= c && c <= 'z') || ('A' <= c && c <= 'Z')
}

fn is_digit_c(c: char) -> (b: bool)
    ensures
        b == is_digit(c),
{
    '0' <= c && c <= '9'
}

fn letters_end_exec(s: &Vec<char>, i: usize) -> (e: usize)
    requires
        i <= s.len(),
    ensures
        e == letters_end(s@, i as int),
        i <= e <= s.len(),
        i < s.len() && is_letter(s@[i as int]) ==> e > i,
{
    let mut e = i;
    while e < s.len() && is_letter_c(s[e])
        invariant
            i <= e <= s.len(),
            letters_end(s@, i as int) == letters_end(s@, e as int),
        decreases s.len() - e,
    {
        e = e + 1;
    }
    e
}

fn digits_end_exec(s: &Vec<char>, i: usize) -> (e: usize)
    requires
        i <= s.len(),
    ensures
        e == digits_end(s@, i as int),
        i <= e <= s.len(),
        forall|k: int| i <= k < e ==> is_digit(s@[k]),
{
    let mut e = i;
    while e < s.len() && is_digit_c(s[e])
        invariant
            i <= e <= s.len(),
            digits_end(s@, i as int) == digits_end(s@, e as int),
            forall|k: int| i <= k < e ==> is_digit(s@[k]),
        decreases s.len() - e,
    {
        e = e + 1;
    }
    e
}

fn digits_value_exec(s: &Vec<char>, i: usize, j: usize) -> (v: u32)
    requires
        i <= j <= s.len(),
        forall|k: int| i <= k < j ==> is_digit(s@[k]),
    ensures
        v == digits_value(s@, i as int, j as int),
{
    let mut acc: u32 = 0;
    let mut k = i;
    while k < j
        invariant
            i <= k <= j <= s.len(),
            forall|m: int| i <= m < j ==> is_digit(s@[m]),
            acc == digits_value(s@, i as int, k as int),
            acc <= PARAM_CAP,
        decreases j - k,
    {
        let d = (s[k] as u32) - ('0' as u32);
        let v = acc * 10 + d;
        acc = if v > PARAM_CAP { PARAM_CAP } else { v };
        k = k + 1;
    }
    acc
}

fn hex_value_exec(c: char) -> (r: Option<u8>)
    ensures
        r == hex_value(c),
{
    if '0' <= c && c <= '9' {
        Some(((c as u32) - ('0' as u32)) as u8)
    } else if 'a' <= c && c <= 'f' {
        Some(((c as u32) - ('a' as u32) + 10) as u8)
    } else if 'A' <= c && c <= 'F' {
        Some(((c as u32) - ('A' as u32) + 10) as u8)
    } else {
        None
    }
}

/// Whether the characters `s[start..end]` are those of `lit`.
fn seg_eq(s: &Vec<char>, start: usize, end: usize, lit: &str) -> (r: bool)
    requires
        start <= end <= s.len(),
    ensures
        r == (s@.subrange(start as int, end as int) == lit@),
{
    let n = lit.unicode_len();
    if end - start != n {
        return false;
    }
    let mut k: usize = 0;
    while k < n
        invariant
            n == lit@.len(),
            end - start == n,
            start <= end <= s@.len(),
            k <= n,
            forall|m: int| 0 <= m < k ==> s@[start + m] == lit@[m],
        decreases n - k,
    {
        if s[start + k] != lit.get_char(k) {
            assert(s@.subrange(start as int, end as int)[k as int] != lit@[k as int]);
            return false;
        }
        k = k + 1;
    }
    assert(s@.subrange(start as int, end as int) =~= lit@);
    true
}

fn classify_exec(s: &Vec<char>, start: usize, end: usize) -> (k: WordKind)
    requires
        start <= end <= s.len(),
    ensures
        k == classify(s@.subrange(start as int, end as int)),
{
    proof {
        reveal_strlit("htmlrtf");
        reveal_strlit("par");
        reveal_strlit("line");
        reveal_strlit("tab");
        reveal_strlit("u");
        reveal_strlit("fromhtml");
        reveal_strlit("htmltag");
        reveal_strlit("fonttbl");
        reveal_strlit("colortbl");
        reveal_strlit("stylesheet");
        reveal_strlit("info");
        reveal_strlit("pict");
        assert("htmlrtf"@ =~= seq!['h', 't', 'm', 'l', 'r', 't', 'f']);
        assert("par"@ =~= seq!['p', 'a', 'r']);
        assert("line"@ =~= seq!['l', 'i', 'n', 'e']);
        assert("tab"@ =~= seq!['t', 'a', 'b']);
        assert("u"@ =~= seq!['u']);
        assert("fromhtml"@ =~= seq!['f', 'r', 'o', 'm', 'h', 't', 'm', 'l']);
        assert("htmltag"@ =~= seq!['h', 't', 'm', 'l', 't', 'a', 'g']);
        assert("fonttbl"@ =~= seq!['f', 'o', 'n', 't', 't', 'b', 'l']);
        assert("colortbl"@ =~= seq!['c', 'o', 'l', 'o', 'r', 't', 'b', 'l']);
        assert("stylesheet"@ =~= seq!['s', 't', 'y', 'l', 'e', 's', 'h', 'e', 'e', 't']);
        assert("info"@ =~= seq!['i', 'n', 'f', 'o']);
        assert("pict"@ =~= seq!['p', 'i', 'c', 't']);
    }
    if seg_eq(s, start, end, "htmlrtf") {
        WordKind::HtmlRtf
    } else if seg_eq(s, start, end, "par") {
        WordKind::Par
    } else if seg_eq(s, start, end, "line") {
        WordKind::Par
    } else if seg_eq(s, start, end, "tab") {
        WordKind::Tab
    } else if seg_eq(s, start, end, "u") {
        WordKind::Unicode
    } else if seg_eq(s, start, end, "fromhtml") {
        WordKind::FromHtml
    } else if seg_eq(s, start, end, "htmltag") {
        WordKind::HtmlTag
    } else if seg_eq(s, start, end, "fonttbl") {
        WordKind::Destination
    } else if seg_eq(s, start, end, "colortbl") {
        WordKind::Destination
    } else if seg_eq(s, start, end, "stylesheet") {
        WordKind::Destination
    } else if seg_eq(s, start, end, "info") {
        WordKind::Destination
    } else if seg_eq(s, start, end, "pict") {
        WordKind::Destination
    } else {
        WordKind::Other
    }
}

/// Reads the control word whose name starts at `i`.
fn control_word_exec(s: &Vec<char>, i: usize) -> (r: (RtfToken, usize))
    requires
        i < s.len(),
        is_letter(s@[i as int]),
    ensures
        (r.0, r.1 as int) == control_word(s@, i as int),
        i < r.1 <= s.len(),
{
    let e = letters_end_exec(s, i);
    assert(e > i);
    let negative = s.len() > 1 && e < s.len() - 1 && s[e] == '-' && is_digit_c(s[e + 1]);
    let ds = if negative { e + 1 } else { e };
    let de = digits_end_exec(s, ds);
    let param = if de > ds {
        Some(Param { negative, magnitude: digits_value_exec(s, ds, de) })
    } else {
        None
    };
    let next = if de < s.len() && s[de] == ' ' { de + 1 } else { de };
    let kind = classify_exec(s, i, e);
    (RtfToken::Word(kind, param), next)
}

/// Reads the token that starts at `i`.
fn next_token_exec(s: &Vec<char>, i: usize) -> (r: (RtfToken, usize))
    requires
        i < s.len(),
    ensures
        (r.0, r.1 as int) == next_token(s@, i as int),
        i < r.1 <= s.len(),
{
    let c = s[i];
    if c == '{' {
        (RtfToken::GroupOpen, i + 1)
    } else if c == '}' {
        (RtfToken::GroupClose, i + 1)
    } else if c == '\\' {
        if i + 1 >= s.len() {
            (RtfToken::Ignored, i + 1)
        } else if is_letter_c(s[i + 1]) {
            control_word_exec(s, i + 1)
        } else if s[i + 1] == '\'' {
            if s.len() > 3 && i < s.len() - 3 {
                match (hex_value_exec(s[i + 2]), hex_value_exec(s[i + 3])) {
                    (Some(h), Some(l)) => (RtfToken::Hex(h * 16 + l), i + 4),
                    _ => (RtfToken::Ignored, i + 2),
                }
            } else {
                (RtfToken::Ignored, i + 2)
            }
        } else {
            (RtfToken::Symbol(s[i + 1]), i + 2)
        }
    } else if c == '\r' || c == '\n' {
        (RtfToken::Ignored, i + 1)
    } else {
        (RtfToken::Text(c), i + 1)
    }
}

/// The de-encapsulation's state, as executable values.
struct ScanState {
    stack: Vec<Frame>,
    cur: Frame,
    dest_pending: bool,
    star: bool,
    skip_fallback: bool,
    from_html: bool,
    out: String,
}

impl View for ScanState {
    type V = Scan;

    closed spec fn view(&self) -> Scan {
        Scan {
            stack: self.stack@,
            cur: self.cur,
            dest_pending: self.dest_pending,
            star: self.star,
            skip_fallback: self.skip_fallback,
            from_html: self.from_html,
            out: self.out@,
        }
    }
}

impl ScanState {
    fn emit_char(&mut self, c: char)
        ensures
            final(self)@ == emit(old(self)@, seq![c]),
    {
        if !self.cur.skip && (self.cur.tag || !self.cur.suppress) {
            let ghost before = self.out@;
            push_char(&mut self.out, c);
            assert(self.out@ =~= before + seq![c]);
        }
    }

    fn apply(&mut self, t: RtfToken)
        ensures
            final(self)@ == step(old(self)@, t),
    {
        match t {
            RtfToken::GroupOpen => {
                self.stack.push(self.cur);
                self.dest_pending = true;
                self.star = false;
            },
            RtfToken::GroupClose => {
                match self.stack.pop() {
                    Some(f) => {
                        self.cur = f;
                    },
                    None => {},
                }
                self.dest_pending = false;
                self.star = false;
            },
            RtfToken::Symbol(c) => {
                if c == '*' && self.dest_pending {
                    self.star = true;
                } else {
                    self.dest_pending = false;
                    self.star = false;
                    if c == '{' || c == '}' || c == '\\' {
                        self.emit_char(c);
                    }
                }
            },
            RtfToken::Word(k, p) => {
                if self.dest_pending && self.star {
                    if k == WordKind::HtmlTag {
                        self.cur = Frame { skip: self.cur.skip, tag: true, suppress: false };
                    } else {
                        self.cur = Frame { skip: true, ..self.cur };
                    }
                    self.dest_pending = false;
                    self.star = false;
                } else if self.dest_pending && k == WordKind::Destination {
                    self.cur = Frame { skip: true, ..self.cur };
                    self.dest_pending = false;
                    self.star = false;
                } else {
                    self.dest_pending = false;
                    self.star = false;
                    match k {
                        WordKind::HtmlRtf => {
                            let off = match p {
                                Some(q) => q.magnitude == 0,
                                None => false,
                            };
                            self.cur = Frame { suppress: !off, ..self.cur };
                        },
                        WordKind::Par => {
                            let ghost before = self@;
                            self.emit_char('\r');
                            self.emit_char('\n');
                            assert(self@.out =~= emit(before, seq!['\r', '\n']).out);
                        },
                        WordKind::Tab => {
                            self.emit_char('\t');
                        },
                        WordKind::Unicode => {
                            let c = unicode_char_exec(p);
                            self.emit_char(c);
                            self.skip_fallback = true;
                        },
                        WordKind::FromHtml => {
                            match p {
                                Some(q) => {
                                    if !q.negative && q.magnitude == 1 {
                                        self.from_html = true;
                                    }
                                },
                                None => {},
                            }
                        },
                        _ => {},
                    }
                }
            },
            RtfToken::Hex(b) => {
                self.dest_pending = false;
                self.star = false;
                if self.skip_fallback {
                    self.skip_fallback = false;
                } else {
                    self.emit_char(b as char);
                }
            },
            RtfToken::Text(c) => {
                self.dest_pending = false;
                self.star = false;
                if self.skip_fallback {
                    self.skip_fallback = false;
                } else {
                    self.emit_char(c);
                }
            },
            RtfToken::Ignored => {},
        }
    }
}

fn unicode_char_exec(p: Option<Param>) -> (c: char)
    ensures
        c == unicode_char(p),
{
    let code: Option<u32> = match p {
        None => None,
        Some(q) => if q.negative {
            if q.magnitude <= 32768 { Some(65536 - q.magnitude) } else { None }
        } else {
            Some(q.magnitude)
        },
    };
    match code {
        None => '\u{FFFD}',
        Some(v) => match char_from_u32(v) {
            Some(c) => {
                assert(char_code(c) == v);
                assert(forall|d: char| #[trigger] char_code(d) == v ==> d == c);
                c
            },
            None => '\u{FFFD}',
        },
    }
}

/// Extracts the HTML that Outlook encapsulated in RTF (MS-OXRTFEX): `None`
/// where the RTF carries no `\fromhtml1`; else the contents of the
/// `\*\htmltag` destinations and the text outside `\htmlrtf` runs and other
/// destinations, with `\par` and `\line` as CR LF, `\tab` as a tab, `\'hh`
/// as the character with that code, `\u` as its character (its fallback
/// character dropped), and `\{`, `\}`, `\\` as those characters.
pub fn rtf_to_html_outlook(rtf: &String) -> (r: Option<String>)
    ensures
        r is Some <==> spec_rtf_to_html(rtf@) is Some,
        r matches Some(h) ==> spec_rtf_to_html(rtf@) == Some(h@),
{
    let s = chars_of(rtf.as_str());
    let mut st = ScanState {
        stack: Vec::new(),
        cur: Frame { skip: false, tag: false, suppress: false },
        dest_pending: false,
        star: false,
        skip_fallback: false,
        from_html: false,
        out: String::new(),
    };
    assert(st@ =~= initial_scan());
    let mut i: usize = 0;
    while i < s.len()
        invariant
            i <= s@.len(),
            s@ == rtf@,
            scan_from(s@, 0, initial_scan()) == scan_from(s@, i as int, st@),
        decreases s@.len() - i,
    {
        let (t, j) = next_token_exec(&s, i);
        st.apply(t);
        i = j;
    }
    if st.from_html {
        Some(st.out)
    } else {
        None
    }
}

/// A `\u` control word outside a destination's opening adds, where text is
/// let through, one character to the HTML: the code point of its parameter,
/// read as a signed 16-bit value (a negative `-n` stands for `65536 - n`),
/// where that is a Unicode scalar value; and the character after it (its
/// fallback) adds nothing.
pub proof fn lemma_unicode_escape(st: Scan, p: Param, c: char)
    requires
        !(st.dest_pending && st.star),
        emits(st.cur),
        !p.negative || (0 < p.magnitude <= 32768),
    ensures
        ({
            let code: int = if p.negative { 65536 - p.magnitude } else { p.magnitude as int };
            let after = step(st, RtfToken::Word(WordKind::Unicode, Some(p)));
            &&& after.out.len() == st.out.len() + 1
            &&& after.out.subrange(0, st.out.len() as int) == st.out
            &&& ((0 <= code < 0xD800) || (0xE000 <= code <= 0x10FFFF)) ==> char_code(after.out.last()) == code
            &&& step(after, RtfToken::Text(c)).out == after.out
        }),
{
    let code: int = if p.negative { 65536 - p.magnitude } else { p.magnitude as int };
    let after = step(st, RtfToken::Word(WordKind::Unicode, Some(p)));
    assert(after.out.subrange(0, st.out.len() as int) =~= st.out);
    if (0 <= code < 0xD800) || (0xE000 <= code <= 0x10FFFF) {
        let w = code as char;
        assert(char_code(w) == code);
    }
}

} // verus!
