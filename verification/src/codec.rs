//! The store's record format: one self-describing JSON object per line.
//!
//! A pool event is written as
//! `{"signature":"..","timestamp":"..","creator":"..","tokens":[..]}` with
//! the quote, backslash, newline and carriage-return characters of every text
//! field escaped, so that one record always stays one line. Reading the log
//! back only needs each record's signature (the dedup key), so the parser
//! recovers exactly that field and reports `None` on anything malformed or
//! truncated, which a reader must tolerate in the log's last line.

use vstd::prelude::*;
use crate::model::PoolEvent;
use crate::model::PoolEventView;
use crate::model::TokenInfo;
use crate::model::TokenInfoView;

verus! {

/// Escape sequence of one character: quote, backslash, newline and
/// carriage return get a two-character escape, anything else stands as is.
pub open spec fn esc_char(c: char) -> Seq<char> {
    if c == '"' {
        seq!['\\', '"']
    } else if c == '\\' {
        seq!['\\', '\\']
    } else if c == '\n' {
        seq!['\\', 'n']
    } else if c == '\r' {
        seq!['\\', 'r']
    } else {
        seq![c]
    }
}

/// Escaped form of a text: each character replaced by its escape sequence.
pub open spec fn esc(s: Seq<char>) -> Seq<char>
    decreases s.len(),
{
    if s.len() == 0 {
        Seq::<char>::empty()
    } else {
        esc_char(s[0]) + esc(s.skip(1))
    }
}

/// The character an escape code stands for, if it is a valid code.
pub open spec fn unesc_code(c: char) -> Option<char> {
    if c == '"' {
        Option::Some('"')
    } else if c == '\\' {
        Option::Some('\\')
    } else if c == 'n' {
        Option::Some('\n')
    } else if c == 'r' {
        Option::Some('\r')
    } else {
        Option::None
    }
}

/// Decode an escaped text up to its closing unescaped quote. `None` when the
/// text ends before a closing quote or holds an unknown escape code.
pub open spec fn scan_quoted(s: Seq<char>) -> Option<Seq<char>>
    decreases s.len(),
{
    if s.len() == 0 {
        Option::None
    } else if s[0] == '"' {
        Option::Some(Seq::<char>::empty())
    } else if s[0] == '\\' {
        if s.len() < 2 {
            Option::None
        } else {
            match unesc_code(s[1]) {
                Option::Some(c) => match scan_quoted(s.skip(2)) {
                    Option::Some(t) => Option::Some(seq![c] + t),
                    Option::None => Option::None,
                },
                Option::None => Option::None,
            }
        }
    } else {
        match scan_quoted(s.skip(1)) {
            Option::Some(t) => Option::Some(seq![s[0]] + t),
            Option::None => Option::None,
        }
    }
}

/// The characters every record line starts with, up to the signature field's
/// opening quote.
pub open spec fn sig_prefix() -> Seq<char> {
    "{\"signature\":\""@
}

/// The signature field of a record line, if the line is well formed up to
/// that field's closing quote.
pub open spec fn parse_sig(line: Seq<char>) -> Option<Seq<char>> {
    if line.len() >= sig_prefix().len() && line.subrange(0, sig_prefix().len() as int)
        == sig_prefix() {
        scan_quoted(line.skip(sig_prefix().len() as int))
    } else {
        Option::None
    }
}

/// Decimal digit characters.
pub open spec fn digit(d: int) -> char {
    if d == 0 {
        '0'
    } else if d == 1 {
        '1'
    } else if d == 2 {
        '2'
    } else if d == 3 {
        '3'
    } else if d == 4 {
        '4'
    } else if d == 5 {
        '5'
    } else if d == 6 {
        '6'
    } else if d == 7 {
        '7'
    } else if d == 8 {
        '8'
    } else {
        '9'
    }
}

/// Decimal text of a byte value, without leading zeros.
pub open spec fn u8_dec(d: u8) -> Seq<char> {
    if d < 10 {
        seq![digit(d as int)]
    } else if d < 100 {
        seq![digit(d as int / 10), digit(d as int % 10)]
    } else {
        seq![digit(d as int / 100), digit((d as int / 10) % 10), digit(d as int % 10)]
    }
}

/// JSON object of one token entry.
pub open spec fn token_json(t: TokenInfoView) -> Seq<char> {
    "{\"address\":\""@ + esc(t.address) + "\",\"decimals\":"@ + u8_dec(t.decimals)
        + ",\"lp_amount\":\""@ + esc(t.lp_amount) + "\"}"@
}

/// JSON array body of the token entries, comma separated.
pub open spec fn tokens_json(ts: Seq<TokenInfoView>) -> Seq<char>
    decreases ts.len(),
{
    if ts.len() == 0 {
        Seq::<char>::empty()
    } else if ts.len() == 1 {
        token_json(ts[0])
    } else {
        tokens_json(ts.drop_last()) + ","@ + token_json(ts.last())
    }
}

/// The full record line of a pool event (without the trailing newline, which
/// the writer adds between records).
pub open spec fn record_line(e: PoolEventView) -> Seq<char> {
    sig_prefix() + esc(e.signature) + "\""@ + ",\"timestamp\":\""@ + esc(e.timestamp) + "\""@
        + ",\"creator\":\""@ + esc(e.creator) + "\""@ + ",\"tokens\":["@ + tokens_json(e.tokens)
        + "]}"@
}

/// Append the escaped form of `s` to `dst`.
fn append_escaped(dst: &mut String, s: &str)
    ensures
        final(dst)@ == old(dst)@ + esc(s@),
{
    let n = s.unicode_len();
    let mut i: usize = 0;
    proof {
        assert(old(dst)@ + esc(s@.take(0int)) =~= old(dst)@);
    }
    while i < n
        invariant
            n == s@.len(),
            i <= n,
            dst@ == old(dst)@ + esc(s@.take(i as int)),
        decreases n - i,
    {
        let ghost pre = dst@;
        let c = s.get_char(i);
        if c == '"' {
            dst.append("\\\"");
            proof {
                reveal_strlit("\\\"");
                assert(dst@ =~= pre + esc_char(s@[i as int]));
            }
        } else if c == '\\' {
            dst.append("\\\\");
            proof {
                reveal_strlit("\\\\");
                assert(dst@ =~= pre + esc_char(s@[i as int]));
            }
        } else if c == '\n' {
            dst.append("\\n");
            proof {
                reveal_strlit("\\n");
                assert(dst@ =~= pre + esc_char(s@[i as int]));
            }
        } else if c == '\r' {
            dst.append("\\r");
            proof {
                reveal_strlit("\\r");
                assert(dst@ =~= pre + esc_char(s@[i as int]));
            }
        } else {
            let piece = s.substring_char(i, i + 1);
            dst.append(piece);
            proof {
                assert(piece@ =~= seq![s@[i as int]]);
                assert(dst@ =~= pre + esc_char(s@[i as int]));
            }
        }
        proof {
            lemma_esc_snoc(s@, i as int);
            assert(dst@ =~= old(dst)@ + esc(s@.take(i + 1int)));
        }
        i = i + 1;
    }
    proof {
        assert(s@.take(n as int) =~= s@);
    }
}

/// Escaping one more character appends that character's escape sequence.
proof fn lemma_esc_snoc(s: Seq<char>, i: int)
    requires
        0 <= i < s.len(),
    ensures
        esc(s.take(i + 1)) == esc(s.take(i)) + esc_char(s[i]),
    decreases i,
{
    if i == 0 {
        assert(s.take(1int) =~= seq![s[0]]);
        assert(seq![s[0]].skip(1) =~= Seq::<char>::empty());
        assert(esc(s.take(1int)) =~= esc_char(s[0]) + esc(Seq::<char>::empty()));
        assert(esc(s.take(0int)) =~= Seq::<char>::empty());
        assert(esc(s.take(1int)) =~= esc(s.take(0int)) + esc_char(s[0]));
    } else {
        lemma_esc_snoc(s.skip(1), i - 1);
        assert(s.take(i + 1).skip(1) =~= s.skip(1).take(i));
        assert(s.take(i).skip(1) =~= s.skip(1).take(i - 1));
        assert(s.take(i + 1)[0] == s[0]);
        assert(s.take(i)[0] == s[0]);
        assert(esc(s.take(i + 1)) =~= esc_char(s[0]) + esc(s.skip(1).take(i)));
        assert(esc(s.take(i)) =~= esc_char(s[0]) + esc(s.skip(1).take(i - 1)));
        assert(s.skip(1)[i - 1] == s[i]);
        assert(esc(s.take(i + 1)) =~= esc(s.take(i)) + esc_char(s[i]));
    }
}

/// Append one decimal digit character.
fn append_digit(dst: &mut String, d: u8)
    requires
        d < 10,
    ensures
        final(dst)@ == old(dst)@ + seq![digit(d as int)],
{
    match d {
        0 => {
            dst.append("0");
            proof {
                reveal_strlit("0");
                assert(dst@ =~= old(dst)@ + seq![digit(0int)]);
            }
        },
        1 => {
            dst.append("1");
            proof {
                reveal_strlit("1");
                assert(dst@ =~= old(dst)@ + seq![digit(1int)]);
            }
        },
        2 => {
            dst.append("2");
            proof {
                reveal_strlit("2");
                assert(dst@ =~= old(dst)@ + seq![digit(2int)]);
            }
        },
        3 => {
            dst.append("3");
            proof {
                reveal_strlit("3");
                assert(dst@ =~= old(dst)@ + seq![digit(3int)]);
            }
        },
        4 => {
            dst.append("4");
            proof {
                reveal_strlit("4");
                assert(dst@ =~= old(dst)@ + seq![digit(4int)]);
            }
        },
        5 => {
            dst.append("5");
            proof {
                reveal_strlit("5");
                assert(dst@ =~= old(dst)@ + seq![digit(5int)]);
            }
        },
        6 => {
            dst.append("6");
            proof {
                reveal_strlit("6");
                assert(dst@ =~= old(dst)@ + seq![digit(6int)]);
            }
        },
        7 => {
            dst.append("7");
            proof {
                reveal_strlit("7");
                assert(dst@ =~= old(dst)@ + seq![digit(7int)]);
            }
        },
        8 => {
            dst.append("8");
            proof {
                reveal_strlit("8");
                assert(dst@ =~= old(dst)@ + seq![digit(8int)]);
            }
        },
        _ => {
            dst.append("9");
            proof {
                reveal_strlit("9");
                assert(dst@ =~= old(dst)@ + seq![digit(9int)]);
            }
        },
    }
}

/// Append the decimal text of a byte value.
fn append_u8_dec(dst: &mut String, d: u8)
    ensures
        final(dst)@ == old(dst)@ + u8_dec(d),
{
    if d < 10 {
        append_digit(dst, d);
        proof {
            assert(dst@ =~= old(dst)@ + u8_dec(d));
        }
    } else if d < 100 {
        append_digit(dst, d / 10);
        append_digit(dst, d % 10);
        proof {
            assert(dst@ =~= old(dst)@ + u8_dec(d));
        }
    } else {
        append_digit(dst, d / 100);
        append_digit(dst, (d / 10) % 10);
        append_digit(dst, d % 10);
        proof {
            assert(dst@ =~= old(dst)@ + u8_dec(d));
        }
    }
}

/// Append the JSON object of one token entry.
fn append_token_json(dst: &mut String, t: &TokenInfo)
    ensures
        final(dst)@ == old(dst)@ + token_json(t@),
{
    dst.append("{\"address\":\"");
    append_escaped(dst, t.address.as_str());
    dst.append("\",\"decimals\":");
    append_u8_dec(dst, t.decimals);
    dst.append(",\"lp_amount\":\"");
    append_escaped(dst, t.lp_amount.as_str());
    dst.append("\"}");
    proof {
        assert(dst@ =~= old(dst)@ + token_json(t@));
    }
}

/// Encode one pool event as its record line.
pub fn encode_event(e: &PoolEvent) -> (line: String)
    ensures
        line@ == record_line(e@),
{
    let mut line = String::new();
    line.append("{\"signature\":\"");
    append_escaped(&mut line, e.signature.as_str());
    line.append("\"");
    line.append(",\"timestamp\":\"");
    append_escaped(&mut line, e.timestamp.as_str());
    line.append("\"");
    line.append(",\"creator\":\"");
    append_escaped(&mut line, e.creator.as_str());
    line.append("\"");
    line.append(",\"tokens\":[");
    let ghost head = line@;
    let ghost tviews = e@.tokens;
    let n = e.tokens.len();
    let mut j: usize = 0;
    proof {
        assert(tviews.take(0int) =~= Seq::<TokenInfoView>::empty());
        assert(line@ =~= head + tokens_json(tviews.take(0int)));
    }
    while j < n
        invariant
            n == e.tokens@.len(),
            tviews == e@.tokens,
            j <= n,
            line@ == head + tokens_json(tviews.take(j as int)),
        decreases n - j,
    {
        let ghost pre = line@;
        if j > 0 {
            line.append(",");
            proof {
                reveal_strlit(",");
            }
        }
        append_token_json(&mut line, &e.tokens[j]);
        proof {
            assert(tviews.take(j + 1int).drop_last() =~= tviews.take(j as int));
            assert(tviews.take(j + 1int).last() == tviews[j as int]);
            assert(tviews[j as int] == e.tokens@[j as int]@);
            if j == 0 {
                assert(tokens_json(tviews.take(1int)) == token_json(tviews[0int]));
                assert(line@ =~= head + tokens_json(tviews.take(j + 1int)));
            } else {
                assert(tokens_json(tviews.take(j + 1int)) == tokens_json(tviews.take(j as int))
                    + ","@ + token_json(tviews[j as int]));
                assert(line@ =~= head + tokens_json(tviews.take(j + 1int)));
            }
        }
        j = j + 1;
    }
    line.append("]}");
    proof {
        assert(tviews.take(n as int) =~= tviews);
        assert(line@ =~= record_line(e@));
    }
    line
}

/// Recover the signature field of one record line, decoding its escapes.
/// `None` on a line that does not match the record format up to the
/// signature's closing quote, a truncated final record included.
pub fn parse_signature_line(line: &str) -> (r: Option<String>)
    ensures
        match parse_sig(line@) {
            Option::Some(s) => r is Some && r->0@ == s,
            Option::None => r is None,
        },
{
    let p = "{\"signature\":\"";
    proof {
        reveal_strlit("{\"signature\":\"");
    }
    let plen = p.unicode_len();
    let n = line.unicode_len();
    if n < plen {
        return Option::None;
    }
    let mut i: usize = 0;
    while i < plen
        invariant
            p@ == sig_prefix(),
            plen == p@.len(),
            n == line@.len(),
            plen <= n,
            i <= plen,
            line@.subrange(0, i as int) =~= p@.subrange(0, i as int),
        decreases plen - i,
    {
        if line.get_char(i) != p.get_char(i) {
            proof {
                if line@.len() >= sig_prefix().len() && line@.subrange(
                    0,
                    sig_prefix().len() as int,
                ) == sig_prefix() {
                    assert(line@.subrange(0, sig_prefix().len() as int)[i as int]
                        == line@[i as int]);
                    assert(sig_prefix()[i as int] == p@[i as int]);
                    assert(false);
                }
            }
            return Option::None;
        }
        proof {
            assert(line@.subrange(0, i + 1int) =~= p@.subrange(0, i + 1int));
        }
        i = i + 1;
    }
    proof {
        assert(line@.subrange(0, plen as int) =~= sig_prefix());
    }
    scan_quoted_from(line, plen)
}

/// Decode the escaped text starting at `start` up to its closing quote.
fn scan_quoted_from(line: &str, start: usize) -> (r: Option<String>)
    requires
        start <= line@.len(),
    ensures
        match scan_quoted(line@.skip(start as int)) {
            Option::Some(s) => r is Some && r->0@ == s,
            Option::None => r is None,
        },
{
    let n = line.unicode_len();
    let mut i: usize = start;
    let mut out = String::new();
    while i < n
        invariant
            n == line@.len(),
            start <= i <= n,
            scan_quoted(line@.skip(start as int)) == match scan_quoted(line@.skip(i as int)) {
                Option::Some(t) => Option::Some(out@ + t),
                Option::None => Option::<Seq<char>>::None,
            },
        decreases n - i,
    {
        let c = line.get_char(i);
        if c == '"' {
            proof {
                assert(line@.skip(i as int)[0] == '"');
                assert(scan_quoted(line@.skip(i as int)) == Option::Some(Seq::<char>::empty()));
                assert(out@ + Seq::<char>::empty() =~= out@);
            }
            return Option::Some(out);
        } else if c == '\\' {
            if i + 1 == n {
                proof {
                    assert(line@.skip(i as int).len() < 2);
                    assert(scan_quoted(line@.skip(i as int)) is None);
                }
                return Option::None;
            }
            let ghost before = out@;
            let c2 = line.get_char(i + 1);
            proof {
                assert(line@.skip(i as int)[0] == '\\');
                assert(line@.skip(i as int)[1] == c2);
                assert(line@.skip(i as int).skip(2) =~= line@.skip(i + 2int));
            }
            if c2 == '"' {
                out.append("\"");
                proof {
                    reveal_strlit("\"");
                    assert(out@ =~= before + seq!['"']);
                }
            } else if c2 == '\\' {
                out.append("\\");
                proof {
                    reveal_strlit("\\");
                    assert(out@ =~= before + seq!['\\']);
                }
            } else if c2 == 'n' {
                out.append("\n");
                proof {
                    reveal_strlit("\n");
                    assert(out@ =~= before + seq!['\n']);
                }
            } else if c2 == 'r' {
                out.append("\r");
                proof {
                    reveal_strlit("\r");
                    assert(out@ =~= before + seq!['\r']);
                }
            } else {
                proof {
                    assert(unesc_code(c2) is None);
                    assert(scan_quoted(line@.skip(i as int)) is None);
                }
                return Option::None;
            }
            proof {
                let dec = unesc_code(c2)->0;
                assert(out@ =~= before + seq![dec]);
                assert forall|t: Seq<char>| true implies before + (seq![dec] + t) =~= out@ + t by {}
            }
            i = i + 2;
        } else {
            let ghost before = out@;
            let piece = line.substring_char(i, i + 1);
            out.append(piece);
            proof {
                assert(piece@ =~= seq![c]);
                assert(line@.skip(i as int)[0] == c);
                assert(line@.skip(i as int).skip(1) =~= line@.skip(i + 1int));
                assert forall|t: Seq<char>| true implies before + (seq![c] + t) =~= out@ + t by {}
            }
            i = i + 1;
        }
    }
    proof {
        assert(line@.skip(n as int).len() == 0);
        assert(scan_quoted(line@.skip(n as int)) is None);
    }
    Option::None
}

/// Decoding an escaped text followed by its closing quote recovers the text,
/// whatever follows the quote: the scanner inverts the escaper.
pub proof fn lemma_scan_esc(s: Seq<char>, rest: Seq<char>)
    ensures
        scan_quoted(esc(s) + seq!['"'] + rest) == Option::Some(s),
    decreases s.len(),
{
    let u = esc(s) + seq!['"'] + rest;
    if s.len() == 0 {
        assert(esc(s) =~= Seq::<char>::empty());
        assert(u =~= seq!['"'] + rest);
        assert(u[0] == '"');
        assert(scan_quoted(u) == Option::Some(Seq::<char>::empty()));
        assert(Seq::<char>::empty() =~= s);
    } else {
        let c = s[0];
        lemma_scan_esc(s.skip(1), rest);
        let tail = esc(s.skip(1)) + seq!['"'] + rest;
        assert(u =~= esc_char(c) + tail);
        if c == '"' || c == '\\' || c == '\n' || c == '\r' {
            assert(esc_char(c).len() == 2);
            assert(u[0] == '\\');
            assert(u.len() >= 2);
            assert(u[1] == esc_char(c)[1]);
            assert(unesc_code(esc_char(c)[1]) == Option::Some(c));
            assert(u.skip(2) =~= tail);
            assert(scan_quoted(u) == Option::Some(seq![c] + s.skip(1)));
            assert(seq![c] + s.skip(1) =~= s);
        } else {
            assert(esc_char(c) =~= seq![c]);
            assert(u[0] == c);
            assert(u.skip(1) =~= tail);
            assert(scan_quoted(u) == Option::Some(seq![c] + s.skip(1)));
            assert(seq![c] + s.skip(1) =~= s);
        }
    }
}

/// A record line always parses back to the signature of the event it was
/// encoded from: the store's restart path recovers every dedup key it wrote.
pub proof fn lemma_record_round_trip(e: PoolEventView)
    ensures
        parse_sig(record_line(e)) == Option::Some(e.signature),
{
    let line = record_line(e);
    let rest = ",\"timestamp\":\""@ + esc(e.timestamp) + "\""@ + ",\"creator\":\""@ + esc(e.creator)
        + "\""@ + ",\"tokens\":["@ + tokens_json(e.tokens) + "]}"@;
    reveal_strlit("\"");
    assert("\""@ =~= seq!['"']);
    assert(line =~= sig_prefix() + (esc(e.signature) + seq!['"'] + rest));
    assert(line.len() >= sig_prefix().len());
    assert(line.subrange(0, sig_prefix().len() as int) =~= sig_prefix());
    assert(line.skip(sig_prefix().len() as int) =~= esc(e.signature) + seq!['"'] + rest);
    lemma_scan_esc(e.signature, rest);
}

} // verus!
