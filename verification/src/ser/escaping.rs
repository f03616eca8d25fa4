//! How strings and keys are written: quoting and escaping.
use vstd::prelude::*;
use crate::ser::Error;
use crate::text::{chars_of, push_char, spells};

verus! {

/// What one character of a string becomes between the quotes, given the
/// character that follows it. A dollar sign gets a backslash only in front
/// of an opening brace, where it would start an interpolation.
pub open spec fn escaped_char(c: char, next: Option<char>) -> Seq<char> {
    if c == '\n' {
        "\\n"@
    } else if c == '\t' {
        "\\t"@
    } else if c == '\r' {
        "\\r"@
    } else if c == '\\' {
        "\\\\"@
    } else if c == '"' {
        "\\\""@
    } else if c == '$' && next == Some('{') {
        "\\$"@
    } else {
        seq![c]
    }
}

/// The character behind `s[i]`, if there is one.
pub open spec fn next_char(s: Seq<char>, i: int) -> Option<char> {
    if i + 1 < s.len() {
        Some(s[i + 1])
    } else {
        None
    }
}

/// The first `n` characters of `s`, escaped.
pub open spec fn escaped_upto(s: Seq<char>, n: nat) -> Seq<char>
    decreases n,
{
    if n == 0 {
        Seq::empty()
    } else {
        escaped_upto(s, (n - 1) as nat) + escaped_char(s[n - 1], next_char(s, n - 1))
    }
}

/// `s` as a string literal: escaped, between double quotes.
pub open spec fn escaped(s: Seq<char>) -> Seq<char> {
    "\""@ + escaped_upto(s, s.len()) + "\""@
}

/// Escapes one character of a string; `peek` is the character behind it.
/// The NUL character cannot be written.
pub fn escape_char(c: char, peek: Option<&char>) -> (res: Result<String, Error>)
    ensures
        match res {
            Ok(text) => c != '\0' && text@ == escaped_char(
                c,
                match peek {
                    Some(next) => Some(*next),
                    None => None,
                },
            ),
            Err(error) => c == '\0' && error == Error::UnencodableNullString,
        },
{
    if c == '\0' {
        return Err(Error::UnencodableNullString);
    }
    let opens = match peek {
        Some(next) => *next == '{',
        None => false,
    };
    Ok(
        if c == '\n' {
            String::from_str("\\n")
        } else if c == '\t' {
            String::from_str("\\t")
        } else if c == '\r' {
            String::from_str("\\r")
        } else if c == '\\' {
            String::from_str("\\\\")
        } else if c == '"' {
            String::from_str("\\\"")
        } else if c == '$' && opens {
            String::from_str("\\$")
        } else {
            let mut text = String::new();
            push_char(&mut text, c);
            text
        },
    )
}

/// Writes `s` as a string literal. Fails on a NUL character.
pub fn escape(s: &str) -> (res: Result<String, Error>)
    ensures
        match res {
            Ok(text) => !s@.contains('\0') && text@ == escaped(s@),
            Err(error) => s@.contains('\0') && error == Error::UnencodableNullString,
        },
{
    let chars = chars_of(s);
    let mut result = String::from_str("\"");
    let mut i: usize = 0;
    while i < chars.len()
        invariant
            i <= chars.len(),
            chars@ == s@,
            result@ == "\""@ + escaped_upto(s@, i as nat),
            forall|k: int| 0 <= k < i ==> s@[k] != '\0',
        decreases chars.len() - i,
    {
        let peek = if i + 1 < chars.len() {
            Some(&chars[i + 1])
        } else {
            None
        };
        match escape_char(chars[i], peek) {
            Ok(text) => {
                result.append(text.as_str());
            },
            Err(error) => {
                assert(s@[i as int] == '\0');
                return Err(error);
            },
        }
        i += 1;
    }
    result.append("\"");
    Ok(result)
}

/// Escaping more of a string only adds behind what was written.
pub proof fn lemma_escaped_upto_extends(s: Seq<char>, m: nat, n: nat)
    requires
        m <= n,
    ensures
        escaped_upto(s, m).len() <= escaped_upto(s, n).len(),
        escaped_upto(s, n).subrange(0, escaped_upto(s, m).len() as int) == escaped_upto(s, m),
    decreases n - m,
{
    if m < n {
        lemma_escaped_upto_extends(s, m, (n - 1) as nat);
        let shorter = escaped_upto(s, (n - 1) as nat);
        let head = escaped_upto(s, m);
        assert(escaped_upto(s, n).subrange(0, head.len() as int) =~= shorter.subrange(
            0,
            head.len() as int,
        ));
    } else {
        assert(escaped_upto(s, n).subrange(0, escaped_upto(s, n).len() as int)
            =~= escaped_upto(s, n));
    }
}

/// In the literal of a string, every dollar sign that stands in front of an
/// opening brace has a backslash in front of it: where the string holds
/// `${`, the literal holds `\${`.
pub proof fn lemma_interpolation_is_escaped(s: Seq<char>, i: int)
    requires
        0 <= i,
        i + 1 < s.len(),
        s[i] == '$',
        s[i + 1] == '{',
    ensures
        exists|j: int|
            0 <= j && j + 3 <= escaped(s).len() && #[trigger] escaped(s).subrange(j, j + 3)
                == "\\${"@,
{
    reveal_strlit("\"");
    reveal_strlit("\\$");
    reveal_strlit("\\${");
    let n = s.len();
    let before = escaped_upto(s, i as nat);
    let upto = escaped_upto(s, (i + 2) as nat);
    assert(escaped_upto(s, (i + 1) as nat) == before + "\\$"@);
    assert(escaped_char(s[i + 1], next_char(s, i + 1)) == seq!['{']);
    assert(upto == before + "\\$"@ + seq!['{']);
    lemma_escaped_upto_extends(s, (i + 2) as nat, n);
    let body = escaped_upto(s, n);
    let j = 1 + before.len() as int;
    assert(body.subrange(0, upto.len() as int) == upto);
    assert forall|k: int| 0 <= k < 3 implies escaped(s)[j + k] == "\\${"@[k] by {
        assert(escaped(s)[j + k] == body[before.len() + k]);
        assert(body[before.len() + k] == body.subrange(0, upto.len() as int)[before.len() + k]);
    }
    assert(escaped(s).subrange(j, j + 3) =~= "\\${"@);
}

/// Whether escaping leaves every character of `s` as it is.
pub open spec fn is_plain_text(s: Seq<char>) -> bool {
    forall|i: int| 0 <= i < s.len() ==> #[trigger] escaped_char(s[i], next_char(s, i)) == seq![s[i]]
}

/// The literal of a string that escaping leaves as it is holds the string
/// itself between the quotes.
pub proof fn lemma_plain_text_is_kept(s: Seq<char>)
    requires
        is_plain_text(s),
    ensures
        escaped(s) == "\""@ + s + "\""@,
{
    assert forall|n: nat| n <= s.len() implies #[trigger] escaped_upto(s, n) == s.take(
        n as int,
    ) by {
        lemma_plain_text_upto(s, n);
    }
    assert(s.take(s.len() as int) =~= s);
}

/// The first `n` characters of a string that escaping leaves as it is are
/// escaped to themselves.
proof fn lemma_plain_text_upto(s: Seq<char>, n: nat)
    requires
        is_plain_text(s),
        n <= s.len(),
    ensures
        escaped_upto(s, n) == s.take(n as int),
    decreases n,
{
    if n > 0 {
        lemma_plain_text_upto(s, (n - 1) as nat);
        assert(escaped_char(s[n - 1], next_char(s, n - 1)) == seq![s[n - 1]]);
        assert(s.take(n as int) =~= s.take(n - 1) + seq![s[n - 1]]);
    } else {
        assert(s.take(0) =~= Seq::<char>::empty());
    }
}

/// Whether `s` is a word that the target language reserves.
pub open spec fn is_keyword(s: Seq<char>) -> bool {
    ||| s == "if"@
    ||| s == "then"@
    ||| s == "else"@
    ||| s == "assert"@
    ||| s == "with"@
    ||| s == "let"@
    ||| s == "in"@
    ||| s == "rec"@
    ||| s == "inherit"@
    ||| s == "or"@
}

/// Whether an identifier may begin with `c`: an ASCII letter or an underscore.
pub open spec fn is_identifier_start(c: char) -> bool {
    ('a' <= c && c <= 'z') || ('A' <= c && c <= 'Z') || c == '_'
}

/// Whether an identifier may go on with `c`: an ASCII letter or digit, an
/// underscore, an apostrophe or a hyphen.
pub open spec fn is_identifier_part(c: char) -> bool {
    is_identifier_start(c) || ('0' <= c && c <= '9') || c == '\'' || c == '-'
}

/// Whether `s` is written like an identifier.
pub open spec fn is_identifier(s: Seq<char>) -> bool {
    &&& s.len() > 0
    &&& is_identifier_start(s[0])
    &&& forall|i: int| 1 <= i < s.len() ==> is_identifier_part(#[trigger] s[i])
}

/// Whether `s` can stand as a key without quotes.
pub open spec fn is_plain_key(s: Seq<char>) -> bool {
    is_identifier(s) && !is_keyword(s)
}

/// `s` as the key of an attribute: bare where that is allowed, a string
/// literal elsewhere.
pub open spec fn escaped_key(s: Seq<char>) -> Seq<char> {
    if is_plain_key(s) {
        s
    } else {
        escaped(s)
    }
}

/// Whether an identifier may begin with `c`.
fn starts_identifier(c: char) -> (yes: bool)
    ensures
        yes == is_identifier_start(c),
{
    ('a' <= c && c <= 'z') || ('A' <= c && c <= 'Z') || c == '_'
}

/// Whether an identifier may go on with `c`.
fn continues_identifier(c: char) -> (yes: bool)
    ensures
        yes == is_identifier_part(c),
{
    starts_identifier(c) || ('0' <= c && c <= '9') || c == '\'' || c == '-'
}

/// Whether `chars` spell a reserved word.
fn reserved(chars: &Vec<char>) -> (yes: bool)
    ensures
        yes == is_keyword(chars@),
{
    let n = chars.len();
    assert(chars@.subrange(0, n as int) =~= chars@);
    spells(chars, 0, n, "if") || spells(chars, 0, n, "then") || spells(chars, 0, n, "else")
        || spells(chars, 0, n, "assert") || spells(chars, 0, n, "with") || spells(
        chars,
        0,
        n,
        "let",
    ) || spells(chars, 0, n, "in") || spells(chars, 0, n, "rec") || spells(
        chars,
        0,
        n,
        "inherit",
    ) || spells(chars, 0, n, "or")
}

/// Writes `s` as the key of an attribute, without quotes where the key is
/// an identifier and no keyword. Fails on a NUL character.
pub fn escape_map_key(s: &str) -> (res: Result<String, Error>)
    ensures
        match res {
            Ok(text) => !s@.contains('\0') && text@ == escaped_key(s@),
            Err(error) => s@.contains('\0') && error == Error::UnencodableNullString,
        },
{
    let chars = chars_of(s);
    if reserved(&chars) {
        return escape(s);
    }
    if chars.len() == 0 || !starts_identifier(chars[0]) {
        return escape(s);
    }
    let mut i: usize = 1;
    while i < chars.len()
        invariant
            1 <= i <= chars.len(),
            chars@ == s@,
            forall|k: int| 1 <= k < i ==> is_identifier_part(#[trigger] s@[k]),
        decreases chars.len() - i,
    {
        if !continues_identifier(chars[i]) {
            return escape(s);
        }
        i += 1;
    }
    assert(is_identifier(s@));
    assert forall|k: int| 0 <= k < s@.len() implies s@[k] != '\0' by {
        if k > 0 {
            assert(is_identifier_part(s@[k]));
        }
    }
    Ok(s.to_owned())
}

} // verus!
