//! Rendering a snapshot as its canonical JSON document.
//!
//! The document shape is fixed: `{"timestamp":T,"data":[{"iface":"..",
//! "packets":N,"bytes":M},..]}`, with stable field order and record order
//! following the snapshot's record order.  The file write itself (open,
//! write, sync) stays with the embedding program; this module pins down the
//! exact bytes it must write.

use vstd::prelude::*;
use crate::snapshot::{record_model, records_model, InterfaceRecord, Snapshot};

verus! {

/// Why a publish failed.
#[derive(Clone, PartialEq, Eq, Debug)]
pub enum PublishError {
    /// The output path could not be opened for writing.
    OpenError(String),
    /// The document could not be written completely.
    WriteError(String),
    /// The written data could not be forced to stable storage.
    SyncError(String),
}

/// The decimal digit character for `d`.
pub open spec fn digit_char(d: int) -> char {
    if d == 0 {
        '0'
    } else if d == 1 {
        '1'
    } else if d == 2 {
        '2'
    } else if d == 3 {
        '3'
    } else if d == 4 {
        '4'
    } else if d == 5 {
        '5'
    } else if d == 6 {
        '6'
    } else if d == 7 {
        '7'
    } else if d == 8 {
        '8'
    } else {
        '9'
    }
}

/// The lower-case hexadecimal digit character for `d`.
pub open spec fn hex_char(d: int) -> char {
    if d < 10 {
        digit_char(d)
    } else if d == 10 {
        'a'
    } else if d == 11 {
        'b'
    } else if d == 12 {
        'c'
    } else if d == 13 {
        'd'
    } else if d == 14 {
        'e'
    } else {
        'f'
    }
}

/// The decimal rendering of `n`, most significant digit first, no sign and
/// no leading zeros (zero itself renders as one digit).
pub open spec fn spec_u64_digits(n: int) -> Seq<char>
    decreases n,
{
    if n <= 0 {
        seq!['0']
    } else if n < 10 {
        seq![digit_char(n)]
    } else {
        spec_u64_digits(n / 10) + seq![digit_char(n % 10)]
    }
}

/// The JSON escape of one character: quote and backslash get a backslash
/// escape, control characters a `\u00XX` escape, all others stand as is.
pub open spec fn esc_char(c: char) -> Seq<char> {
    if c == '"' {
        seq!['\\', '"']
    } else if c == '\\' {
        seq!['\\', '\\']
    } else if (c as int) < 32 {
        seq!['\\', 'u', '0', '0', hex_char(c as int / 16), hex_char(c as int % 16)]
    } else {
        seq![c]
    }
}

/// The JSON escape of a whole string.
pub open spec fn escaped(s: Seq<char>) -> Seq<char>
    decreases s.len(),
{
    if s.len() == 0 {
        Seq::empty()
    } else {
        escaped(s.drop_last()) + esc_char(s.last())
    }
}

/// The JSON object for one record's content.
pub open spec fn record_json(m: (Seq<char>, u64, u64)) -> Seq<char> {
    "{\"iface\":\""@ + escaped(m.0) + "\",\"packets\":"@ + spec_u64_digits(m.1 as int)
        + ",\"bytes\":"@ + spec_u64_digits(m.2 as int) + "}"@
}

/// The comma-separated JSON objects for a record list.
pub open spec fn records_json(rs: Seq<(Seq<char>, u64, u64)>) -> Seq<char>
    decreases rs.len(),
{
    if rs.len() == 0 {
        Seq::empty()
    } else if rs.len() == 1 {
        record_json(rs[0])
    } else {
        records_json(rs.drop_last()) + seq![','] + record_json(rs.last())
    }
}

/// The full JSON document for a snapshot.
pub open spec fn snapshot_json(timestamp: u64, rs: Seq<(Seq<char>, u64, u64)>) -> Seq<char> {
    "{\"timestamp\":"@ + spec_u64_digits(timestamp as int) + ",\"data\":["@ + records_json(rs)
        + "]}"@
}

fn digit_string(d: u64) -> (s: &'static str)
    requires
        d < 10,
    ensures
        s@ == seq![digit_char(d as int)],
{
    proof {
        reveal_strlit("0");
        reveal_strlit("1");
        reveal_strlit("2");
        reveal_strlit("3");
        reveal_strlit("4");
        reveal_strlit("5");
        reveal_strlit("6");
        reveal_strlit("7");
        reveal_strlit("8");
        reveal_strlit("9");
    }
    if d == 0 {
        let s = "0";
        proof {
            assert(s@ =~= seq![digit_char(d as int)]);
        }
        s
    } else if d == 1 {
        let s = "1";
        proof {
            assert(s@ =~= seq![digit_char(d as int)]);
        }
        s
    } else if d == 2 {
        let s = "2";
        proof {
            assert(s@ =~= seq![digit_char(d as int)]);
        }
        s
    } else if d == 3 {
        let s = "3";
        proof {
            assert(s@ =~= seq![digit_char(d as int)]);
        }
        s
    } else if d == 4 {
        let s = "4";
        proof {
            assert(s@ =~= seq![digit_char(d as int)]);
        }
        s
    } else if d == 5 {
        let s = "5";
        proof {
            assert(s@ =~= seq![digit_char(d as int)]);
        }
        s
    } else if d == 6 {
        let s = "6";
        proof {
            assert(s@ =~= seq![digit_char(d as int)]);
        }
        s
    } else if d == 7 {
        let s = "7";
        proof {
            assert(s@ =~= seq![digit_char(d as int)]);
        }
        s
    } else if d == 8 {
        let s = "8";
        proof {
            assert(s@ =~= seq![digit_char(d as int)]);
        }
        s
    } else {
        let s = "9";
        proof {
            assert(s@ =~= seq![digit_char(d as int)]);
        }
        s
    }
}

fn hex_string(d: u32) -> (s: &'static str)
    requires
        d < 16,
    ensures
        s@ == seq![hex_char(d as int)],
{
    if d < 10 {
        let s = digit_string(d as u64);
        proof {
            assert(s@ =~= seq![hex_char(d as int)]);
        }
        s
    } else {
        proof {
            reveal_strlit("a");
            reveal_strlit("b");
            reveal_strlit("c");
            reveal_strlit("d");
            reveal_strlit("e");
            reveal_strlit("f");
        }
        if d == 10 {
            let s = "a";
            proof {
                assert(s@ =~= seq![hex_char(d as int)]);
            }
            s
        } else if d == 11 {
            let s = "b";
            proof {
                assert(s@ =~= seq![hex_char(d as int)]);
            }
            s
        } else if d == 12 {
            let s = "c";
            proof {
                assert(s@ =~= seq![hex_char(d as int)]);
            }
            s
        } else if d == 13 {
            let s = "d";
            proof {
                assert(s@ =~= seq![hex_char(d as int)]);
            }
            s
        } else if d == 14 {
            let s = "e";
            proof {
                assert(s@ =~= seq![hex_char(d as int)]);
            }
            s
        } else {
            let s = "f";
            proof {
                assert(s@ =~= seq![hex_char(d as int)]);
            }
            s
        }
    }
}

/// Render `n` in decimal.
pub fn u64_to_string(n: u64) -> (s: String)
    ensures
        s@ == spec_u64_digits(n as int),
    decreases n,
{
    if n < 10 {
        let s = String::from_str(digit_string(n));
        proof {
            assert(s@ =~= spec_u64_digits(n as int));
        }
        s
    } else {
        let mut s = u64_to_string(n / 10);
        s.append(digit_string(n % 10));
        proof {
            assert(s@ =~= spec_u64_digits(n as int));
        }
        s
    }
}

/// JSON-escape a string.
pub fn escape_json(s: &str) -> (r: String)
    ensures
        r@ == escaped(s@),
{
    let n = s.unicode_len();
    let mut out = String::new();
    let mut i: usize = 0;
    while i < n
        invariant
            i <= n,
            n == s@.len(),
            out@ == escaped(s@.take(i as int)),
        decreases n - i,
    {
        let c = s.get_char(i);
        let ghost prev = out@;
        if c == '"' {
            out.append("\\\"");
            proof {
                reveal_strlit("\\\"");
                assert(out@ =~= prev + esc_char(c));
            }
        } else if c == '\\' {
            out.append("\\\\");
            proof {
                reveal_strlit("\\\\");
                assert(out@ =~= prev + esc_char(c));
            }
        } else if (c as u32) < 32 {
            let cv = c as u32;
            out.append("\\u00");
            out.append(hex_string(cv / 16));
            out.append(hex_string(cv % 16));
            proof {
                reveal_strlit("\\u00");
                assert(cv as int == c as int);
                assert(out@ =~= prev + esc_char(c));
            }
        } else {
            let piece = s.substring_char(i, i + 1);
            out.append(piece);
            proof {
                assert(piece@ =~= seq![s@[i as int]]);
                assert(out@ =~= prev + esc_char(c));
            }
        }
        i += 1;
        proof {
            assert(s@.take(i as int).drop_last() =~= s@.take(i - 1));
            assert(s@.take(i as int).last() == s@[i - 1]);
            assert(out@ =~= escaped(s@.take(i as int)));
        }
    }
    proof {
        assert(s@.take(n as int) =~= s@);
    }
    out
}

/// Append one record's JSON object to `out`.
fn append_record_json(out: &mut String, r: &InterfaceRecord)
    ensures
        final(out)@ == old(out)@ + record_json(record_model(*r)),
{
    let ghost start = out@;
    out.append("{\"iface\":\"");
    let esc = escape_json(r.interface.as_str());
    out.append(esc.as_str());
    out.append("\",\"packets\":");
    let p = u64_to_string(r.sample.packets);
    out.append(p.as_str());
    out.append(",\"bytes\":");
    let b = u64_to_string(r.sample.bytes);
    out.append(b.as_str());
    out.append("}");
    proof {
        assert(out@ =~= start + record_json(record_model(*r)));
    }
}

/// Serialize a snapshot to its canonical JSON document.
pub fn serialize_snapshot(s: &Snapshot) -> (j: String)
    ensures
        j@ == snapshot_json(s.timestamp, records_model(*s)),
{
    let mut out = String::from_str("{\"timestamp\":");
    let ts = u64_to_string(s.timestamp);
    out.append(ts.as_str());
    out.append(",\"data\":[");
    let ghost prefix = out@;
    let mut i: usize = 0;
    while i < s.records.len()
        invariant
            i <= s.records@.len(),
            prefix == "{\"timestamp\":"@ + spec_u64_digits(s.timestamp as int) + ",\"data\":["@,
            out@ == prefix + records_json(records_model(*s).take(i as int)),
        decreases s.records@.len() - i,
    {
        if i > 0 {
            out.append(",");
            proof {
                reveal_strlit(",");
            }
        }
        append_record_json(&mut out, &s.records[i]);
        i += 1;
        proof {
            assert(records_model(*s).take(i as int).drop_last() =~= records_model(*s).take(i - 1));
            assert(records_model(*s).take(i as int).last() == record_model(s.records@[i - 1]));
            assert(out@ =~= prefix + records_json(records_model(*s).take(i as int)));
        }
    }
    out.append("]}");
    proof {
        assert(records_model(*s).take(s.records@.len() as int) =~= records_model(*s));
        assert(out@ =~= snapshot_json(s.timestamp, records_model(*s)));
    }
    out
}

} // verus!
