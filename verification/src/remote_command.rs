//! Building remote command lines: POSIX single quoting and PowerShell
//! `-EncodedCommand` scripts.
use vstd::prelude::*;
use crate::text::{push_char, push_str, to_chars};

verus! {

/// `s` with each single quote replaced by `'\''`.
pub open spec fn escape_single_quotes(s: Seq<char>) -> Seq<char>
    decreases s.len(),
{
    if s.len() == 0 {
        seq![]
    } else {
        escape_single_quotes(s.drop_last()) + if s.last() == '\'' {
            seq!['\'', '\\', '\'', '\'']
        } else {
            seq![s.last()]
        }
    }
}

/// `s` as one single-quoted POSIX shell word.
pub open spec fn shell_quoted(s: Seq<char>) -> Seq<char> {
    seq!['\''] + escape_single_quotes(s) + seq!['\'']
}

/// `s` followed by a read word, keeping a failed read failed.
pub open spec fn read_after(s: Seq<char>, o: Option<Seq<char>>) -> Option<Seq<char>> {
    match o {
        Some(r) => Some(s + r),
        None => None,
    }
}

/// What a POSIX shell reads from `w` inside single quotes: every character
/// literally up to the closing quote, then the rest of the word outside
/// quotes; nothing when the quote is never closed.
pub open spec fn posix_read_quoted(w: Seq<char>) -> Option<Seq<char>>
    decreases w.len(),
{
    if w.len() == 0 {
        None
    } else if w[0] == '\'' {
        posix_read_unquoted(w.drop_first())
    } else {
        read_after(seq![w[0]], posix_read_quoted(w.drop_first()))
    }
}

/// What a POSIX shell reads from `w` outside quotes, for a word made only
/// of single-quoted runs and backslash escapes: a quote opens a run, a
/// backslash gives the next character; nothing for any other (possibly
/// special) character, or a trailing backslash.
pub open spec fn posix_read_unquoted(w: Seq<char>) -> Option<Seq<char>>
    decreases w.len(),
{
    if w.len() == 0 {
        Some(seq![])
    } else if w[0] == '\'' {
        posix_read_quoted(w.drop_first())
    } else if w[0] == '\\' && w.len() >= 2 {
        read_after(seq![w[1]], posix_read_unquoted(w.skip(2)))
    } else {
        None
    }
}

proof fn lemma_escape_append(a: Seq<char>, b: Seq<char>)
    ensures
        escape_single_quotes(a + b) == escape_single_quotes(a) + escape_single_quotes(b),
    decreases b.len(),
{
    if b.len() == 0 {
        assert(a + b =~= a);
        assert(escape_single_quotes(a) + escape_single_quotes(b) =~= escape_single_quotes(a));
    } else {
        lemma_escape_append(a, b.drop_last());
        assert((a + b).drop_last() =~= a + b.drop_last());
        assert((a + b).last() == b.last());
        let t = if b.last() == '\'' {
            seq!['\'', '\\', '\'', '\'']
        } else {
            seq![b.last()]
        };
        assert(escape_single_quotes(a) + escape_single_quotes(b.drop_last()) + t =~= escape_single_quotes(a)
            + (escape_single_quotes(b.drop_last()) + t));
    }
}

proof fn lemma_read_escaped(s: Seq<char>, rest: Seq<char>)
    ensures
        posix_read_quoted(escape_single_quotes(s) + seq!['\''] + rest) == read_after(s, posix_read_unquoted(rest)),
    decreases s.len(),
{
    if s.len() == 0 {
        assert(escape_single_quotes(s) + seq!['\''] + rest =~= seq!['\''] + rest);
        assert((seq!['\''] + rest).drop_first() =~= rest);
        match posix_read_unquoted(rest) {
            Some(r) => assert(s + r =~= r),
            None => {},
        }
    } else {
        let c = s[0];
        let t = s.drop_first();
        assert(s =~= seq![c] + t);
        lemma_escape_append(seq![c], t);
        assert(seq![c].drop_last() =~= Seq::<char>::empty());
        lemma_read_escaped(t, rest);
        let one = seq![c];
        assert(one.last() == c);
        assert(escape_single_quotes(Seq::<char>::empty()) =~= Seq::<char>::empty());
        assert(escape_single_quotes(one) =~= if c == '\'' {
            seq!['\'', '\\', '\'', '\'']
        } else {
            seq![c]
        });
        assert(escape_single_quotes(s) == escape_single_quotes(one) + escape_single_quotes(t));
        let tail = escape_single_quotes(t) + seq!['\''] + rest;
        if c == '\'' {
            let w = seq!['\'', '\\', '\'', '\''] + tail;
            assert(escape_single_quotes(s) + seq!['\''] + rest =~= w);
            assert(w.drop_first() =~= seq!['\\', '\'', '\''] + tail);
            assert((seq!['\\', '\'', '\''] + tail).skip(2) =~= seq!['\''] + tail);
            assert((seq!['\''] + tail).drop_first() =~= tail);
            let w1 = seq!['\\', '\'', '\''] + tail;
            assert(w1[0] == '\\' && w1[1] == '\'' && w1.len() >= 2);
            assert(posix_read_unquoted(seq!['\''] + tail) == posix_read_quoted(tail));
            assert(posix_read_unquoted(w1) == read_after(seq!['\''], posix_read_unquoted(seq!['\''] + tail)));
            assert(w[0] == '\'');
            assert(posix_read_quoted(w) == posix_read_unquoted(w1));
            match posix_read_unquoted(rest) {
                Some(r) => assert(seq![c] + (t + r) =~= s + r),
                None => {},
            }
        } else {
            let w = seq![c] + tail;
            assert(escape_single_quotes(s) + seq!['\''] + rest =~= w);
            assert(w.drop_first() =~= tail);
            assert(w[0] == c);
            assert(posix_read_quoted(w) == read_after(seq![c], posix_read_quoted(tail)));
            match posix_read_unquoted(rest) {
                Some(r) => assert(seq![c] + (t + r) =~= s + r),
                None => {},
            }
        }
    }
}

/// A quoted word reads back as the text it quotes: a POSIX shell that reads
/// `shell_quoted(s)` gets exactly `s`, whatever characters it holds.
pub proof fn lemma_shell_quote_reads_back(s: Seq<char>)
    ensures
        posix_read_unquoted(shell_quoted(s)) == Some(s),
{
    let w = shell_quoted(s);
    assert(w.drop_first() =~= escape_single_quotes(s) + seq!['\''] + Seq::<char>::empty());
    lemma_read_escaped(s, Seq::<char>::empty());
    assert(s + Seq::<char>::empty() =~= s);
}

/// The UTF-16 little-endian bytes of one character.
pub open spec fn char_utf16le(c: char) -> Seq<u8> {
    let n = c as int;
    if n < 0x10000 {
        seq![(n % 256) as u8, (n / 256) as u8]
    } else {
        let m = n - 0x10000;
        let hi = 0xD800 + m / 1024;
        let lo = 0xDC00 + m % 1024;
        seq![(hi % 256) as u8, (hi / 256) as u8, (lo % 256) as u8, (lo / 256) as u8]
    }
}

/// The UTF-16 little-endian encoding of a string.
pub open spec fn utf16le(s: Seq<char>) -> Seq<u8>
    decreases s.len(),
{
    if s.len() == 0 {
        seq![]
    } else {
        utf16le(s.drop_last()) + char_utf16le(s.last())
    }
}

/// The character of a 6-bit value in the standard base64 alphabet
/// (RFC 4648, table 1).
pub open spec fn base64_digit(v: int) -> char {
    if v < 26 {
        (65 + v) as char
    } else if v < 52 {
        (97 + v - 26) as char
    } else if v < 62 {
        (48 + v - 52) as char
    } else if v == 62 {
        '+'
    } else {
        '/'
    }
}

/// The standard, padded base64 encoding of `bytes` (RFC 4648, section 4):
/// each group of three bytes gives four characters, and a final group of
/// one or two bytes is padded with `=`.
pub open spec fn base64_standard(bytes: Seq<u8>) -> Seq<char>
    decreases bytes.len(),
{
    let b0 = bytes[0] as int;
    let b1 = bytes[1] as int;
    let b2 = bytes[2] as int;
    if bytes.len() == 0 {
        seq![]
    } else if bytes.len() == 1 {
        seq![base64_digit(b0 / 4), base64_digit((b0 % 4) * 16), '=', '=']
    } else if bytes.len() == 2 {
        seq![
            base64_digit(b0 / 4),
            base64_digit((b0 % 4) * 16 + b1 / 16),
            base64_digit((b1 % 16) * 4),
            '=',
        ]
    } else {
        seq![
            base64_digit(b0 / 4),
            base64_digit((b0 % 4) * 16 + b1 / 16),
            base64_digit((b1 % 16) * 4 + b2 / 64),
            base64_digit(b2 % 64),
        ] + base64_standard(bytes.skip(3))
    }
}

/// Encodes bytes with `base64::engine::general_purpose::STANDARD`
/// (`Engine::encode`): the standard alphabet with padding, as the crate
/// documents it.
#[verifier::external_body]
fn base64_encode(bytes: &[u8]) -> (r: String)
    ensures
        r@ == base64_standard(bytes@),
{
    base64::Engine::encode(&base64::engine::general_purpose::STANDARD, bytes)
}

/// Quotes `value` as a single POSIX shell word.
pub fn shell_quote(value: &str) -> (r: String)
    ensures
        r@ == shell_quoted(value@),
        posix_read_unquoted(r@) == Some(value@),
{
    proof {
        lemma_shell_quote_reads_back(value@);
    }
    let v = to_chars(value);
    let mut s = String::new();
    push_char(&mut s, '\'');
    let mut i: usize = 0;
    while i < v.len()
        invariant
            i <= v@.len(),
            s@ == seq!['\''] + escape_single_quotes(v@.subrange(0, i as int)),
        decreases v@.len() - i,
    {
        let c = v[i];
        proof {
            assert(v@.subrange(0, i + 1).drop_last() =~= v@.subrange(0, i as int));
        }
        if c == '\'' {
            push_char(&mut s, '\'');
            push_char(&mut s, '\\');
            push_char(&mut s, '\'');
            push_char(&mut s, '\'');
        } else {
            push_char(&mut s, c);
        }
        i = i + 1;
        assert(s@ =~= seq!['\''] + escape_single_quotes(v@.subrange(0, i as int)));
    }
    push_char(&mut s, '\'');
    assert(v@.subrange(0, v@.len() as int) =~= value@);
    assert(s@ =~= shell_quoted(value@));
    s
}

/// Appends the UTF-16 little-endian bytes of one character.
fn push_char_utf16le(out: &mut Vec<u8>, c: char)
    ensures
        final(out)@ == old(out)@ + char_utf16le(c),
{
    let n = c as u32;
    if n < 0x10000 {
        out.push((n % 256) as u8);
        out.push((n / 256) as u8);
    } else {
        let m = n - 0x10000;
        let hi = 0xD800 + m / 1024;
        let lo = 0xDC00 + m % 1024;
        out.push((hi % 256) as u8);
        out.push((hi / 256) as u8);
        out.push((lo % 256) as u8);
        out.push((lo / 256) as u8);
    }
    assert(out@ =~= old(out)@ + char_utf16le(c));
}

/// A PowerShell script as the base64 of its UTF-16LE bytes, the form that
/// `-EncodedCommand` takes.
pub fn windows_powershell_encoded_script(script: &str) -> (r: String)
    ensures
        r@ == base64_standard(utf16le(script@)),
{
    let v = to_chars(script);
    let mut bytes: Vec<u8> = Vec::new();
    let mut i: usize = 0;
    while i < v.len()
        invariant
            i <= v@.len(),
            bytes@ == utf16le(v@.subrange(0, i as int)),
        decreases v@.len() - i,
    {
        proof {
            assert(v@.subrange(0, i + 1).drop_last() =~= v@.subrange(0, i as int));
        }
        push_char_utf16le(&mut bytes, v[i]);
        i = i + 1;
    }
    assert(v@.subrange(0, v@.len() as int) =~= script@);
    base64_encode(bytes.as_slice())
}

/// The `powershell.exe` command line that runs `script`.
pub fn windows_powershell_command(script: &str) -> (r: String)
    ensures
        r@ == "powershell.exe -NoLogo -NoProfile -NonInteractive -EncodedCommand "@
            + base64_standard(utf16le(script@)),
{
    let mut s = String::from_str(
        "powershell.exe -NoLogo -NoProfile -NonInteractive -EncodedCommand ",
    );
    let encoded = windows_powershell_encoded_script(script);
    push_str(&mut s, encoded.as_str());
    s
}

} // verus!
