use vstd::prelude::*;
use vstd::string::*;

use crate::module_name::ModuleName;
use regex::Error as RegexError;

verus! {

// ---------------------------------------------------------------------------
// The textual signature format: space-separated pairs of hex digits or `??`.
// ---------------------------------------------------------------------------

/// `c` is an ASCII hex digit, in either case.
pub open spec fn is_hex_digit(c: char) -> bool {
    ('0' <= c && c <= '9') || ('a' <= c && c <= 'f') || ('A' <= c && c <= 'F')
}

/// `c` may stand in one half of a signature byte: a hex digit or `?`.
pub open spec fn is_pattern_char(c: char) -> bool {
    is_hex_digit(c) || c == '?'
}

/// The ASCII whitespace class `[\t\n\v\f\r ]`.
pub open spec fn is_ascii_space(c: char) -> bool {
    c == ' ' || c == '\t' || c == '\n' || c == '\x0B' || c == '\x0C' || c == '\r'
}

/// A well-formed signature text: pairs of pattern characters, each pair
/// separated from the next by exactly one ASCII whitespace character.
pub open spec fn is_signature_text(s: Seq<char>) -> bool {
    &&& s.len() >= 2
    &&& s.len() % 3 == 2
    &&& forall|i: int|
        0 <= i < s.len() ==> if i % 3 == 2 {
            is_ascii_space(#[trigger] s[i])
        } else {
            is_pattern_char(s[i])
        }
}

/// Upper-case of a signature character (only hex letters change).
pub open spec fn upper_pattern_char(c: char) -> char {
    if c == 'a' {
        'A'
    } else if c == 'b' {
        'B'
    } else if c == 'c' {
        'C'
    } else if c == 'd' {
        'D'
    } else if c == 'e' {
        'E'
    } else if c == 'f' {
        'F'
    } else {
        c
    }
}

/// Number of byte tokens in a signature text.
pub open spec fn token_count(s: Seq<char>) -> nat {
    ((s.len() + 1) / 3) as nat
}

/// Token `k` is the wildcard byte `??`.
pub open spec fn is_wildcard_token(s: Seq<char>, k: int) -> bool {
    s[3 * k] == '?' && s[3 * k + 1] == '?'
}

/// The regex prefix that turns on "dot matches any byte" and byte mode.
pub open spec fn pattern_prefix() -> Seq<char> {
    seq!['(', '?', 's', '-', 'u', ':']
}

/// Appends the regex text of token `k` to the text built so far; the flag
/// says whether a capture group for a run of wildcards is open.
pub open spec fn emit_token(acc: (Seq<char>, bool), s: Seq<char>, k: int) -> (Seq<char>, bool) {
    if is_wildcard_token(s, k) {
        if acc.1 {
            (acc.0.push('.'), true)
        } else {
            (acc.0 + seq!['(', '.'], true)
        }
    } else {
        let base = if acc.1 {
            acc.0.push(')')
        } else {
            acc.0
        };
        (
            base + seq!['\\', 'x', upper_pattern_char(s[3 * k]), upper_pattern_char(s[3 * k + 1])],
            false,
        )
    }
}

/// The regex text and open-group flag after the first `n` tokens.
pub open spec fn emit_tokens(s: Seq<char>, n: nat) -> (Seq<char>, bool)
    decreases n,
{
    if n == 0 {
        (pattern_prefix(), false)
    } else {
        emit_token(emit_tokens(s, (n - 1) as nat), s, n - 1)
    }
}

/// The regex that a signature text denotes: literal bytes as `\xHH`, each
/// maximal run of wildcards as one capture group of `.`s, all inside
/// `(?s-u:` ... `)`.
pub open spec fn signature_pattern(s: Seq<char>) -> Seq<char> {
    let (body, open) = emit_tokens(s, token_count(s));
    (if open {
        body.push(')')
    } else {
        body
    }).push(')')
}

fn is_hex_digit_exec(c: char) -> (b: bool)
    ensures
        b == is_hex_digit(c),
{
    ('0' <= c && c <= '9') || ('a' <= c && c <= 'f') || ('A' <= c && c <= 'F')
}

fn is_ascii_space_exec(c: char) -> (b: bool)
    ensures
        b == is_ascii_space(c),
{
    c == ' ' || c == '\t' || c == '\n' || c == '\x0B' || c == '\x0C' || c == '\r'
}

fn upper_pattern_char_exec(c: char) -> (u: char)
    ensures
        u == upper_pattern_char(c),
{
    if c == 'a' {
        'A'
    } else if c == 'b' {
        'B'
    } else if c == 'c' {
        'C'
    } else if c == 'd' {
        'D'
    } else if c == 'e' {
        'E'
    } else if c == 'f' {
        'F'
    } else {
        c
    }
}

/// The characters of a string, one by one.
fn chars_of(s: &str) -> (v: Vec<char>)
    ensures
        v@ == s@,
{
    let n = s.unicode_len();
    let mut v: Vec<char> = Vec::new();
    let mut i: usize = 0;
    while i < n
        invariant
            n == s@.len(),
            i <= n,
            v@ == s@.subrange(0, i as int),
        decreases n - i,
    {
        let c = s.get_char(i);
        v.push(c);
        i = i + 1;
    }
    v
}

/// Checks the signature text format.
pub fn is_signature_text_exec(s: &Vec<char>) -> (b: bool)
    ensures
        b == is_signature_text(s@),
{
    let n = s.len();
    if n < 2 || n % 3 != 2 {
        return false;
    }
    let mut i: usize = 0;
    while i < n
        invariant
            n == s@.len(),
            i <= n,
            forall|j: int|
                0 <= j < i ==> if j % 3 == 2 {
                    is_ascii_space(#[trigger] s@[j])
                } else {
                    is_pattern_char(s@[j])
                },
        decreases n - i,
    {
        let c = s[i];
        let ok = if i % 3 == 2 {
            is_ascii_space_exec(c)
        } else {
            is_hex_digit_exec(c) || c == '?'
        };
        if !ok {
            assert(!(if (i as int) % 3 == 2 {
                is_ascii_space(s@[i as int])
            } else {
                is_pattern_char(s@[i as int])
            }));
            return false;
        }
        i = i + 1;
    }
    true
}

/// Builds the regex text of a well-formed signature text.
pub fn signature_pattern_exec(s: &Vec<char>) -> (p: Vec<char>)
    requires
        is_signature_text(s@),
    ensures
        p@ == signature_pattern(s@),
{
    let n = s.len();
    let count = (n + 1) / 3;
    let mut p: Vec<char> = Vec::new();
    p.push('(');
    p.push('?');
    p.push('s');
    p.push('-');
    p.push('u');
    p.push(':');
    let mut open = false;
    let mut k: usize = 0;
    assert(p@ == pattern_prefix());
    while k < count
        invariant
            n == s@.len(),
            is_signature_text(s@),
            count == token_count(s@),
            k <= count,
            (p@, open) == emit_tokens(s@, k as nat),
        decreases count - k,
    {
        let a = s[3 * k];
        let b = s[3 * k + 1];
        let ghost before = p@;
        if a == '?' && b == '?' {
            if !open {
                p.push('(');
                open = true;
            }
            p.push('.');
        } else {
            if open {
                p.push(')');
                open = false;
            }
            p.push('\\');
            p.push('x');
            p.push(upper_pattern_char_exec(a));
            p.push(upper_pattern_char_exec(b));
        }
        proof {
            let acc = emit_tokens(s@, k as nat);
            assert(emit_tokens(s@, (k + 1) as nat) == emit_token(acc, s@, k as int));
            assert(p@ =~= emit_token(acc, s@, k as int).0);
        }
        k = k + 1;
    }
    if open {
        p.push(')');
    }
    p.push(')');
    p
}

/// Two texts agree as signatures when they differ only in the case of
/// their hex letters and in which whitespace separates the bytes.
pub open spec fn same_signature_bytes(s: Seq<char>, t: Seq<char>) -> bool {
    &&& s.len() == t.len()
    &&& forall|i: int|
        0 <= i < s.len() && i % 3 != 2 ==> upper_pattern_char(#[trigger] s[i]) == upper_pattern_char(
            t[i],
        )
}

proof fn lemma_emit_tokens_agree(s: Seq<char>, t: Seq<char>, n: nat)
    requires
        same_signature_bytes(s, t),
        3 * n <= s.len() + 1,
    ensures
        emit_tokens(s, n) == emit_tokens(t, n),
    decreases n,
{
    if n > 0 {
        lemma_emit_tokens_agree(s, t, (n - 1) as nat);
        let k = n - 1;
        assert(upper_pattern_char(s[3 * k]) == upper_pattern_char(t[3 * k]));
        assert(upper_pattern_char(s[3 * k + 1]) == upper_pattern_char(t[3 * k + 1]));
    }
}

/// Signature texts are case-insensitive and any ASCII whitespace may
/// separate the bytes: texts that differ only in these denote the same
/// regex.
pub proof fn law_signature_case_insensitive(s: Seq<char>, t: Seq<char>)
    requires
        is_signature_text(s),
        is_signature_text(t),
        same_signature_bytes(s, t),
    ensures
        signature_pattern(s) == signature_pattern(t),
{
    lemma_emit_tokens_agree(s, t, token_count(s));
}

/// ASCII upper case: `a`..`z` become `A`..`Z`, every other character stays.
pub open spec fn ascii_upper(c: char) -> char {
    if 'a' <= c && c <= 'z' {
        ((c as u32) - 32) as char
    } else {
        c
    }
}

/// A text with every ASCII letter in upper case.
pub open spec fn ascii_uppercased(s: Seq<char>) -> Seq<char> {
    s.map_values(|c: char| ascii_upper(c))
}

/// Every decimal digit and every letter `a`..`f`, in either case, and `?`
/// may stand in a signature byte; no other letter may.
pub proof fn law_pattern_chars(c: char)
    ensures
        ('0' <= c && c <= '9') ==> is_pattern_char(c),
        ('a' <= c && c <= 'f') ==> is_pattern_char(c),
        ('A' <= c && c <= 'F') ==> is_pattern_char(c),
        c == '?' ==> is_pattern_char(c),
        (('g' <= c && c <= 'z') || ('G' <= c && c <= 'Z')) ==> !is_pattern_char(c),
{
}

proof fn lemma_upper_keeps_classes(c: char)
    ensures
        is_pattern_char(ascii_upper(c)) == is_pattern_char(c),
        is_ascii_space(ascii_upper(c)) == is_ascii_space(c),
{
}

/// The signature format is case-insensitive: a text is well-formed exactly
/// when its upper-cased text is, and both denote the same regex.
pub proof fn law_signature_format_case_insensitive(s: Seq<char>)
    ensures
        is_signature_text(s) == is_signature_text(ascii_uppercased(s)),
        is_signature_text(s) ==> signature_pattern(s) == signature_pattern(ascii_uppercased(s)),
{
    let u = ascii_uppercased(s);
    assert forall|i: int| 0 <= i < s.len() implies (is_ascii_space(#[trigger] u[i]) == is_ascii_space(
        s[i],
    ) && is_pattern_char(u[i]) == is_pattern_char(s[i])) by {
        lemma_upper_keeps_classes(s[i]);
    }
    if is_signature_text(s) {
        assert(is_signature_text(u));
        assert forall|i: int| 0 <= i < s.len() && i % 3 != 2 implies upper_pattern_char(
            #[trigger] s[i],
        ) == upper_pattern_char(u[i]) by {
            assert(is_pattern_char(s[i]));
        }
        law_signature_case_insensitive(s, u);
    } else {
        if is_signature_text(u) {
            assert forall|i: int| 0 <= i < s.len() implies if i % 3 == 2 {
                is_ascii_space(#[trigger] s[i])
            } else {
                is_pattern_char(s[i])
            } by {
                assert(is_ascii_space(u[i]) == is_ascii_space(s[i]));
            }
        }
    }
}

/// How often `c` occurs in `p`.
pub open spec fn count_char(p: Seq<char>, c: char) -> nat
    decreases p.len(),
{
    if p.len() == 0 {
        0
    } else {
        count_char(p.drop_last(), c) + if p.last() == c {
            1nat
        } else {
            0nat
        }
    }
}

/// The number of maximal runs of wildcard tokens among the first `n`.
pub open spec fn wildcard_runs(s: Seq<char>, n: nat) -> nat
    decreases n,
{
    if n == 0 {
        0
    } else {
        let k = n - 1;
        wildcard_runs(s, (n - 1) as nat) + if is_wildcard_token(s, k) && (k == 0
            || !is_wildcard_token(s, k - 1)) {
            1nat
        } else {
            0nat
        }
    }
}

proof fn lemma_count_concat(a: Seq<char>, b: Seq<char>, c: char)
    ensures
        count_char(a + b, c) == count_char(a, c) + count_char(b, c),
    decreases b.len(),
{
    if b.len() > 0 {
        assert((a + b).drop_last() =~= a + b.drop_last());
        lemma_count_concat(a, b.drop_last(), c);
    }
}

proof fn lemma_count_small(cs: Seq<char>, c: char)
    requires
        cs.len() <= 4,
    ensures
        count_char(cs, c) == (if cs.len() > 0 && cs[0] == c {
            1nat
        } else {
            0nat
        }) + (if cs.len() > 1 && cs[1] == c {
            1nat
        } else {
            0nat
        }) + (if cs.len() > 2 && cs[2] == c {
            1nat
        } else {
            0nat
        }) + (if cs.len() > 3 && cs[3] == c {
            1nat
        } else {
            0nat
        }),
    decreases cs.len(),
{
    if cs.len() > 0 {
        lemma_count_small(cs.drop_last(), c);
    }
}

proof fn lemma_emit_counts(s: Seq<char>, n: nat)
    requires
        is_signature_text(s),
        n <= token_count(s),
    ensures
        count_char(emit_tokens(s, n).0, '(') == 1 + wildcard_runs(s, n),
        count_char(emit_tokens(s, n).0, ')') + (if emit_tokens(s, n).1 {
            1nat
        } else {
            0nat
        }) == wildcard_runs(s, n),
        emit_tokens(s, n).1 <==> (n > 0 && is_wildcard_token(s, n - 1)),
    decreases n,
{
    if n == 0 {
        lemma_count_concat(seq!['(', '?', 's'], seq!['-', 'u', ':'], '(');
        lemma_count_concat(seq!['(', '?', 's'], seq!['-', 'u', ':'], ')');
        lemma_count_small(seq!['(', '?', 's'], '(');
        lemma_count_small(seq!['-', 'u', ':'], '(');
        lemma_count_small(seq!['(', '?', 's'], ')');
        lemma_count_small(seq!['-', 'u', ':'], ')');
        assert(pattern_prefix() =~= seq!['(', '?', 's'] + seq!['-', 'u', ':']);
    } else {
        let k = n - 1;
        lemma_emit_counts(s, (n - 1) as nat);
        let acc = emit_tokens(s, (n - 1) as nat);
        assert(is_pattern_char(s[3 * k]) && is_pattern_char(s[3 * k + 1])) by {
            assert((3 * k) % 3 == 0);
            assert((3 * k + 1) % 3 == 1);
        }
        let piece: Seq<char> = if is_wildcard_token(s, k) {
            if acc.1 {
                seq!['.']
            } else {
                seq!['(', '.']
            }
        } else {
            if acc.1 {
                seq![')', '\\', 'x', upper_pattern_char(s[3 * k])]
            } else {
                seq!['\\', 'x', upper_pattern_char(s[3 * k])]
            }
        };
        lemma_count_concat(acc.0, piece, '(');
        lemma_count_concat(acc.0, piece, ')');
        lemma_count_small(piece, '(');
        lemma_count_small(piece, ')');
        if is_wildcard_token(s, k) {
            assert(emit_tokens(s, n).0 =~= acc.0 + piece);
        } else {
            let last = seq![upper_pattern_char(s[3 * k + 1])];
            lemma_count_concat(acc.0 + piece, last, '(');
            lemma_count_concat(acc.0 + piece, last, ')');
            lemma_count_small(last, '(');
            lemma_count_small(last, ')');
            assert(emit_tokens(s, n).0 =~= acc.0 + piece + last);
        }
    }
}

/// Every maximal run of wildcards in a signature text becomes one capture
/// group, and nothing else does: the regex opens one group more than there
/// are runs (the outer flag group) and closes every group it opens.
pub proof fn law_capture_group_per_wildcard_run(s: Seq<char>)
    requires
        is_signature_text(s),
    ensures
        count_char(signature_pattern(s), '(') == 1 + wildcard_runs(s, token_count(s)),
        count_char(signature_pattern(s), ')') == 1 + wildcard_runs(s, token_count(s)),
{
    let n = token_count(s);
    lemma_emit_counts(s, n);
    let (body, open) = emit_tokens(s, n);
    let closed = if open {
        body.push(')')
    } else {
        body
    };
    lemma_count_concat(body, seq![')'], '(');
    lemma_count_concat(body, seq![')'], ')');
    assert(body.push(')') =~= body + seq![')']);
    lemma_count_concat(closed, seq![')'], '(');
    lemma_count_concat(closed, seq![')'], ')');
    assert(closed.push(')') =~= closed + seq![')']);
    lemma_count_small(seq![')'], '(');
    lemma_count_small(seq![')'], ')');
}

// ---------------------------------------------------------------------------
// Compiled signatures, with the regex engine behind two trusted items.
// ---------------------------------------------------------------------------

#[verifier::external_type_specification]
#[verifier::external_body]
pub struct ExRegex(regex::bytes::Regex);

#[verifier::external_type_specification]
#[verifier::external_body]
pub struct ExRegexError(RegexError);

/// Whether `regex::bytes::Regex::new` accepts the pattern text.
pub uninterp spec fn regex_accepts(pattern: Seq<char>) -> bool;

/// The capture groups of each successive match that
/// `regex::bytes::Regex::captures_iter` yields for a pattern on a haystack:
/// one sequence per match, one entry per group (`None` where the group did
/// not take part), each a `(start, end)` byte span.
pub uninterp spec fn regex_capture_spans(pattern: Seq<char>, haystack: Seq<u8>) -> Seq<
    Seq<Option<(usize, usize)>>,
>;

/// A compiled byte regex together with the pattern text it was compiled
/// from. Only `compile_regex` builds one, so the two always agree.
pub struct SignatureRegex {
    pattern: Vec<char>,
    regex: regex::bytes::Regex,
}

impl View for SignatureRegex {
    type V = Seq<char>;

    closed spec fn view(&self) -> Seq<char> {
        self.pattern@
    }
}

/// Compiles `pattern` with `regex::bytes::Regex::new`. Trusted: the result
/// is `Ok` exactly when the regex crate accepts the pattern (named
/// `regex_accepts`), and an `Ok` value carries the same pattern text.
#[verifier::external_body]
fn compile_regex(pattern: &Vec<char>) -> (res: Result<SignatureRegex, RegexError>)
    ensures
        res is Ok <==> regex_accepts(pattern@),
        res matches Ok(r) ==> r@ == pattern@,
{
    let text: String = pattern.iter().collect();
    regex::bytes::Regex::new(&text).map(|regex| SignatureRegex { pattern: pattern.clone(), regex })
}

/// Runs `regex::bytes::Regex::captures_iter` over `haystack` and collects
/// every match's capture spans. Trusted: the spans are those named by
/// `regex_capture_spans` for the regex's pattern; as the crate documents,
/// every match has a group 0 that is present, and every span lies inside
/// the haystack with its start not after its end.
#[verifier::external_body]
fn regex_captures(re: &SignatureRegex, haystack: &[u8]) -> (res: Vec<Vec<Option<(usize, usize)>>>)
    ensures
        res@.len() == regex_capture_spans(re@, haystack@).len(),
        forall|i: int| 0 <= i < res@.len() ==> #[trigger] res@[i]@ == regex_capture_spans(re@, haystack@)[i],
        forall|i: int|
            0 <= i < res@.len() ==> (#[trigger] res@[i]@).len() > 0 && res@[i]@[0] is Some,
        forall|i: int, j: int|
            0 <= i < res@.len() && 0 <= j < res@[i]@.len() ==> match #[trigger] res@[i]@[j] {
                Some((s, e)) => s <= e <= haystack@.len(),
                None => true,
            },
{
    re.regex.captures_iter(haystack).map(|caps| caps.iter().map(|m| m.map(|m| (m.start(), m.end()))).collect()).collect()
}

/// What a signature is in the model: its module and its regex text.
pub struct SignatureModel {
    pub module: ModuleName,
    pub pattern: Seq<char>,
}

/// Why a signature text could not be turned into a signature.
#[derive(Debug)]
pub enum SignatureError {
    /// The text is not space-separated pairs of hex digits or `??`.
    WrongFormat(String),
    /// The regex built from the text was refused by the regex engine.
    InvalidPattern(RegexError),
}

/// A byte pattern to look for in a module's memory.
pub struct Signature {
    module: ModuleName,
    regex: SignatureRegex,
}

impl View for Signature {
    type V = SignatureModel;

    closed spec fn view(&self) -> SignatureModel {
        SignatureModel { module: self.module, pattern: self.regex@ }
    }
}

/// The outcome of `Signature::new` in the model.
pub open spec fn signature_new_succeeds(text: Seq<char>) -> bool {
    is_signature_text(text) && regex_accepts(signature_pattern(text))
}

impl Signature {
    /// Parses a signature text such as `"FF 0D ?? ?? ?? ?? E8"` into a byte
    /// regex for `module`. Wildcard runs become numbered capture groups,
    /// counted from 1 in the order they appear.
    pub fn new(module: ModuleName, signature: &str) -> (res: Result<Signature, SignatureError>)
        ensures
            res is Ok <==> signature_new_succeeds(signature@),
            res matches Ok(sig) ==> sig@ == (SignatureModel {
                module,
                pattern: signature_pattern(signature@),
            }),
            res matches Err(SignatureError::WrongFormat(text)) ==> text@ == signature@
                && !is_signature_text(signature@),
            res matches Err(SignatureError::InvalidPattern(_)) ==> is_signature_text(signature@)
                && !regex_accepts(signature_pattern(signature@)),
    {
        let chars = chars_of(signature);
        if !is_signature_text_exec(&chars) {
            return Err(SignatureError::WrongFormat(signature.to_owned()));
        }
        let pattern = signature_pattern_exec(&chars);
        match compile_regex(&pattern) {
            Ok(regex) => Ok(Signature { module, regex }),
            Err(e) => Err(SignatureError::InvalidPattern(e)),
        }
    }

    /// The module this signature is searched in.
    pub fn module(&self) -> (m: ModuleName)
        ensures
            m == self@.module,
    {
        self.module
    }

    /// The capture spans of every match of this signature in `haystack`.
    pub fn captures(&self, haystack: &[u8]) -> (res: Vec<Vec<Option<(usize, usize)>>>)
        ensures
            res@.len() == regex_capture_spans(self@.pattern, haystack@).len(),
            forall|i: int|
                0 <= i < res@.len() ==> #[trigger] res@[i]@ == regex_capture_spans(
                    self@.pattern,
                    haystack@,
                )[i],
            forall|i: int|
                0 <= i < res@.len() ==> (#[trigger] res@[i]@).len() > 0 && res@[i]@[0] is Some,
            forall|i: int, j: int|
                0 <= i < res@.len() && 0 <= j < res@[i]@.len() ==> match #[trigger] res@[i]@[j] {
                    Some((s, e)) => s <= e <= haystack@.len(),
                    None => true,
                },
    {
        regex_captures(&self.regex, haystack)
    }
}

} // verus!
