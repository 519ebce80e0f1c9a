//! The binary cache format: a private, self-describing encoding of a
//! compiled configuration document, with structural validation built
//! into the decoder so that truncated or corrupted bytes are rejected
//! rather than misread.
//!
//! Layout: a four-byte magic header, the polling interval as a
//! little-endian u64, one byte each for the hysteresis amount and
//! direction flag, the 101-byte curve table, and the two optional power
//! scripts, each a presence byte followed by length-prefixed UTF-8
//! strings.

use crate::config::{
    ArgonConfigRKYV, ArgonConfigRKYVV, FanConfigRKYV, FanConfigRKYVV, Hysteresis, PowerScript,
    PowerScriptV,
};
use crate::curve::TemperatureCurve;
use vstd::bytes::{
    lemma_auto_spec_u64_to_from_le_bytes, spec_u64_from_le_bytes, spec_u64_to_le_bytes,
    u64_from_le_bytes, u64_to_le_bytes,
};
use vstd::prelude::*;
use vstd::slice::{slice_subrange, slice_to_vec};
use vstd::string::StrSliceExecFns;
use vstd::utf8::{decode_utf8, encode_utf8, encode_utf8_decode_utf8, encode_utf8_valid_utf8, valid_utf8};

verus! {

/// The header that opens every cache record.
pub open spec fn magic() -> Seq<u8> {
    seq![0xA7u8, 0x46u8, 0x43u8, 0x01u8]
}

/// A u64 in little-endian byte order.
pub open spec fn enc_u64v(v: u64) -> Seq<u8> {
    spec_u64_to_le_bytes(v)
}

/// The single byte a boolean is stored as.
pub open spec fn bool_byte(b: bool) -> u8 {
    if b {
        1
    } else {
        0
    }
}

/// A string: the byte length of its UTF-8 form, then the bytes.
pub open spec fn enc_str(s: Seq<char>) -> Seq<u8> {
    enc_u64v(encode_utf8(s).len() as u64) + encode_utf8(s)
}

/// A list of strings, one after the other.
pub open spec fn enc_str_list(ss: Seq<Seq<char>>) -> Seq<u8>
    decreases ss.len(),
{
    if ss.len() == 0 {
        Seq::empty()
    } else {
        enc_str(ss[0]) + enc_str_list(ss.drop_first())
    }
}

/// A power script: its location, the argument count, the arguments.
pub open spec fn enc_script(p: PowerScriptV) -> Seq<u8> {
    enc_str(p.location) + enc_u64v(p.args.len() as u64) + enc_str_list(p.args)
}

/// An optional power script: a presence byte, then the script if any.
pub open spec fn enc_opt_script(o: Option<PowerScriptV>) -> Seq<u8> {
    match o {
        Option::None => seq![0u8],
        Option::Some(p) => seq![1u8] + enc_script(p),
    }
}

/// The full cache record for a compiled document.
pub open spec fn spec_encode(d: ArgonConfigRKYVV) -> Seq<u8> {
    magic() + enc_u64v(d.fan_config.interval)
        + seq![d.fan_config.hysteresis.amount, bool_byte(d.fan_config.hysteresis.only_way_down)]
        + d.fan_config.table + enc_opt_script(d.shutdown_script) + enc_opt_script(d.reboot_script)
}

/// True when a string's UTF-8 form fits the u64 length prefix.
pub open spec fn str_bounded(s: Seq<char>) -> bool {
    encode_utf8(s).len() <= u64::MAX
}

/// True when a script's strings and argument count fit their prefixes.
pub open spec fn script_bounded(p: PowerScriptV) -> bool {
    &&& str_bounded(p.location)
    &&& p.args.len() <= u64::MAX
    &&& forall|i: int| 0 <= i < p.args.len() ==> str_bounded(#[trigger] p.args[i])
}

/// True when an optional script is bounded.
pub open spec fn opt_script_bounded(o: Option<PowerScriptV>) -> bool {
    match o {
        Option::None => true,
        Option::Some(p) => script_bounded(p),
    }
}

/// True when every length stored in a document's record fits its
/// prefix; every document built from executable values is.
pub open spec fn doc_bounded(d: ArgonConfigRKYVV) -> bool {
    opt_script_bounded(d.shutdown_script) && opt_script_bounded(d.reboot_script)
}

/// Relies on `String::from_utf8`: yields the string whose UTF-8
/// encoding is the given byte vector, and fails exactly when the bytes
/// are not valid UTF-8.
#[verifier::external_body]
fn bytes_to_string(v: Vec<u8>) -> (r: Option<String>)
    ensures
        match r {
            Option::Some(s) => valid_utf8(v@) && s@ == decode_utf8(v@),
            Option::None => !valid_utf8(v@),
        },
{
    String::from_utf8(v).ok()
}

/// Appends one length-prefixed string to the output record.
fn push_str(out: &mut Vec<u8>, s: &String)
    ensures
        final(out)@ == old(out)@ + enc_str(s@),
        str_bounded(s@),
{
    let mut payload = s.as_str().as_bytes_vec();
    let ghost pre = out@;
    let mut len_bytes = u64_to_le_bytes(payload.len() as u64);
    out.append(&mut len_bytes);
    out.append(&mut payload);
    proof {
        assert(out@ =~= pre + enc_str(s@));
    }
}

/// Appends one optional power script to the output record.
fn push_opt_script(out: &mut Vec<u8>, o: &Option<PowerScript>)
    ensures
        final(out)@ == old(out)@ + enc_opt_script(crate::config::script_option_view(*o)),
        opt_script_bounded(crate::config::script_option_view(*o)),
{
    let ghost pre = out@;
    match o {
        Option::None => {
            out.push(0);
            proof {
                assert(out@ =~= pre + enc_opt_script(Option::None));
            }
        },
        Option::Some(p) => {
            out.push(1);
            push_str(out, &p.location);
            let mut cnt_bytes = u64_to_le_bytes(p.args.len() as u64);
            out.append(&mut cnt_bytes);
            let ghost base = out@;
            let mut i: usize = 0;
            while i < p.args.len()
                invariant
                    i <= p.args@.len(),
                    out@ == base + enc_str_list(p.args.deep_view().take(i as int)),
                    forall|j: int| 0 <= j < i ==> str_bounded(#[trigger] p.args.deep_view()[j]),
                decreases p.args@.len() - i,
            {
                let ghost sofar = p.args.deep_view().take(i as int);
                push_str(out, &p.args[i]);
                proof {
                    lemma_enc_str_list_snoc(sofar, p.args.deep_view()[i as int]);
                    assert(p.args.deep_view().take(i as int + 1)
                        =~= sofar.push(p.args.deep_view()[i as int]));
                    assert(out@ =~= base + enc_str_list(p.args.deep_view().take(i as int + 1)));
                }
                i = i + 1;
            }
            proof {
                assert(p.args.deep_view().take(p.args@.len() as int) =~= p.args.deep_view());
                assert(out@ =~= pre + enc_opt_script(Option::Some(p@)));
            }
        },
    }
}

/// Encoding a list and then one more string is encoding the longer
/// list.
proof fn lemma_enc_str_list_snoc(ss: Seq<Seq<char>>, s: Seq<char>)
    ensures
        enc_str_list(ss.push(s)) == enc_str_list(ss) + enc_str(s),
    decreases ss.len(),
{
    if ss.len() == 0 {
        reveal_with_fuel(enc_str_list, 3);
        assert(ss.push(s)[0] == s);
        assert(ss.push(s).drop_first() =~= Seq::<Seq<char>>::empty());
        assert(enc_str_list(ss.push(s)) =~= enc_str_list(ss) + enc_str(s));
    } else {
        assert(ss.push(s)[0] == ss[0]);
        assert(ss.push(s).drop_first() =~= ss.drop_first().push(s));
        lemma_enc_str_list_snoc(ss.drop_first(), s);
        assert(enc_str_list(ss.push(s)) == enc_str(ss[0]) + enc_str_list(ss.drop_first().push(s)));
        assert(enc_str_list(ss) == enc_str(ss[0]) + enc_str_list(ss.drop_first()));
        assert(enc_str(ss[0]) + (enc_str_list(ss.drop_first()) + enc_str(s)) =~= (enc_str(ss[0])
            + enc_str_list(ss.drop_first())) + enc_str(s));
    }
}

/// Serializes a compiled document into its cache record. The record is
/// a pure function of the document's value.
pub fn encode_document(d: &ArgonConfigRKYV) -> (out: Vec<u8>)
    requires
        crate::config::wf_doc(d@),
    ensures
        out@ == spec_encode(d@),
        doc_bounded(d@),
{
    let mut out: Vec<u8> = Vec::new();
    out.push(0xA7);
    out.push(0x46);
    out.push(0x43);
    out.push(0x01);
    proof {
        assert(out@ =~= magic());
    }
    let mut iv = u64_to_le_bytes(d.fan_config.interval);
    out.append(&mut iv);
    out.push(d.fan_config.hysteresis.amount);
    out.push(if d.fan_config.hysteresis.only_way_down {
        1
    } else {
        0
    });
    let ghost head = out@;
    proof {
        assert(head =~= magic() + enc_u64v(d.fan_config.interval)
            + seq![
            d.fan_config.hysteresis.amount,
            bool_byte(d.fan_config.hysteresis.only_way_down),
        ]);
    }
    let mut table = slice_to_vec(d.fan_config.matrix.table.as_slice());
    out.append(&mut table);
    let ghost with_table = out@;
    proof {
        assert(with_table =~= head + d.fan_config.matrix.table@);
    }
    push_opt_script(&mut out, &d.shutdown_script);
    push_opt_script(&mut out, &d.reboot_script);
    proof {
        assert(out@ =~= spec_encode(d@));
    }
    out
}

/// Reads a little-endian u64 at `pos`, if eight bytes remain.
pub open spec fn dec_u64(bytes: Seq<u8>, pos: int) -> Option<(u64, int)> {
    if 0 <= pos && pos + 8 <= bytes.len() {
        Option::Some((spec_u64_from_le_bytes(bytes.subrange(pos, pos + 8)), pos + 8))
    } else {
        Option::None
    }
}

/// Reads a length-prefixed byte run at `pos`, if it fits.
pub open spec fn dec_bytes(bytes: Seq<u8>, pos: int) -> Option<(Seq<u8>, int)> {
    match dec_u64(bytes, pos) {
        Option::None => Option::None,
        Option::Some((n, p)) => if p + n <= bytes.len() {
            Option::Some((bytes.subrange(p, p + n), p + n))
        } else {
            Option::None
        },
    }
}

/// Reads a length-prefixed string at `pos`, if its bytes are UTF-8.
pub open spec fn dec_str(bytes: Seq<u8>, pos: int) -> Option<(Seq<char>, int)> {
    match dec_bytes(bytes, pos) {
        Option::None => Option::None,
        Option::Some((b, p)) => if valid_utf8(b) {
            Option::Some((decode_utf8(b), p))
        } else {
            Option::None
        },
    }
}

/// Reads `count` strings one after the other at `pos`.
pub open spec fn dec_str_list(bytes: Seq<u8>, pos: int, count: int) -> Option<
    (Seq<Seq<char>>, int),
>
    decreases count,
{
    if count <= 0 {
        Option::Some((Seq::empty(), pos))
    } else {
        match dec_str(bytes, pos) {
            Option::None => Option::None,
            Option::Some((s, p)) => match dec_str_list(bytes, p, count - 1) {
                Option::None => Option::None,
                Option::Some((ss, q)) => Option::Some((seq![s] + ss, q)),
            },
        }
    }
}

/// Reads one power script at `pos`.
pub open spec fn dec_script(bytes: Seq<u8>, pos: int) -> Option<(PowerScriptV, int)> {
    match dec_str(bytes, pos) {
        Option::None => Option::None,
        Option::Some((loc, p1)) => match dec_u64(bytes, p1) {
            Option::None => Option::None,
            Option::Some((cnt, p2)) => match dec_str_list(bytes, p2, cnt as int) {
                Option::None => Option::None,
                Option::Some((args, p3)) => Option::Some(
                    (PowerScriptV { location: loc, args }, p3),
                ),
            },
        },
    }
}

/// Reads a presence byte and, when it says so, one power script.
pub open spec fn dec_opt_script(bytes: Seq<u8>, pos: int) -> Option<
    (Option<PowerScriptV>, int),
> {
    if !(0 <= pos && pos < bytes.len()) {
        Option::None
    } else if bytes[pos] == 0 {
        Option::Some((Option::None, pos + 1))
    } else if bytes[pos] == 1 {
        match dec_script(bytes, pos + 1) {
            Option::None => Option::None,
            Option::Some((p, q)) => Option::Some((Option::Some(p), q)),
        }
    } else {
        Option::None
    }
}

/// Parses and structurally validates a whole cache record. Yields the
/// document's value exactly when the bytes are a well-formed record
/// with nothing missing, nothing trailing, and every field in range.
pub open spec fn dec_document(bytes: Seq<u8>) -> Option<ArgonConfigRKYVV> {
    if bytes.len() < 4 || bytes.subrange(0, 4) != magic() {
        Option::None
    } else {
        match dec_u64(bytes, 4) {
            Option::None => Option::None,
            Option::Some((interval, p1)) => if p1 + 2 > bytes.len() {
                Option::None
            } else if bytes[p1] > 100 || bytes[p1 + 1] > 1 {
                Option::None
            } else if p1 + 103 > bytes.len() {
                Option::None
            } else if !(forall|i: int|
                0 <= i < 101 ==> #[trigger] bytes.subrange(p1 + 2, p1 + 103)[i] <= 100) {
                Option::None
            } else {
                match dec_opt_script(bytes, p1 + 103) {
                    Option::None => Option::None,
                    Option::Some((sh, p2)) => match dec_opt_script(bytes, p2) {
                        Option::None => Option::None,
                        Option::Some((rb, p3)) => if p3 == bytes.len() {
                            Option::Some(
                                ArgonConfigRKYVV {
                                    fan_config: FanConfigRKYVV {
                                        interval,
                                        hysteresis: Hysteresis {
                                            amount: bytes[p1],
                                            only_way_down: bytes[p1 + 1] == 1,
                                        },
                                        table: bytes.subrange(p1 + 2, p1 + 103),
                                    },
                                    shutdown_script: sh,
                                    reboot_script: rb,
                                },
                            )
                        } else {
                            Option::None
                        },
                    },
                }
            },
        }
    }
}

proof fn lemma_dec_u64_at(bytes: Seq<u8>, pos: int, v: u64)
    requires
        0 <= pos,
        pos + 8 <= bytes.len(),
        bytes.subrange(pos, pos + 8) == enc_u64v(v),
    ensures
        dec_u64(bytes, pos) == Option::Some((v, pos + 8)),
{
    lemma_auto_spec_u64_to_from_le_bytes();
}

proof fn lemma_dec_str_at(bytes: Seq<u8>, pos: int, s: Seq<char>)
    requires
        str_bounded(s),
        0 <= pos,
        pos + enc_str(s).len() <= bytes.len(),
        bytes.subrange(pos, pos + enc_str(s).len()) == enc_str(s),
    ensures
        dec_str(bytes, pos) == Option::Some((s, pos + enc_str(s).len())),
{
    lemma_auto_spec_u64_to_from_le_bytes();
    let pl = encode_utf8(s);
    let n = pl.len() as u64;
    let whole = enc_str(s);
    assert(whole == enc_u64v(n) + pl);
    assert(enc_u64v(n).len() == 8);
    assert(bytes.subrange(pos, pos + 8) =~= enc_u64v(n)) by {
        assert forall|i: int| 0 <= i < 8 implies bytes.subrange(pos, pos + 8)[i] == enc_u64v(n)[i]
            by {
            assert(bytes.subrange(pos, pos + whole.len() as int)[i] == whole[i]);
        }
    }
    lemma_dec_u64_at(bytes, pos, n);
    assert(bytes.subrange(pos + 8, pos + 8 + pl.len() as int) =~= pl) by {
        assert forall|i: int|
            0 <= i < pl.len() implies bytes.subrange(pos + 8, pos + 8 + pl.len() as int)[i]
            == pl[i] by {
            assert(bytes.subrange(pos, pos + whole.len() as int)[8 + i] == whole[8 + i]);
        }
    }
    encode_utf8_valid_utf8(s);
    encode_utf8_decode_utf8(s);
}

proof fn lemma_dec_str_list_at(bytes: Seq<u8>, pos: int, ss: Seq<Seq<char>>)
    requires
        forall|i: int| 0 <= i < ss.len() ==> str_bounded(#[trigger] ss[i]),
        0 <= pos,
        pos + enc_str_list(ss).len() <= bytes.len(),
        bytes.subrange(pos, pos + enc_str_list(ss).len()) == enc_str_list(ss),
    ensures
        dec_str_list(bytes, pos, ss.len() as int) == Option::Some(
            (ss, pos + enc_str_list(ss).len()),
        ),
    decreases ss.len(),
{
    if ss.len() == 0 {
        assert(ss =~= Seq::<Seq<char>>::empty());
    } else {
        let head = enc_str(ss[0]);
        let tail = enc_str_list(ss.drop_first());
        let whole = enc_str_list(ss);
        assert(whole == head + tail);
        assert(bytes.subrange(pos, pos + head.len() as int) =~= head) by {
            assert forall|i: int|
                0 <= i < head.len() implies bytes.subrange(pos, pos + head.len() as int)[i]
                == head[i] by {
                assert(bytes.subrange(pos, pos + whole.len() as int)[i] == whole[i]);
            }
        }
        lemma_dec_str_at(bytes, pos, ss[0]);
        let p1 = pos + head.len() as int;
        assert(bytes.subrange(p1, p1 + tail.len() as int) =~= tail) by {
            assert forall|i: int|
                0 <= i < tail.len() implies bytes.subrange(p1, p1 + tail.len() as int)[i]
                == tail[i] by {
                assert(bytes.subrange(pos, pos + whole.len() as int)[head.len() + i] == whole[
                    head.len() + i
                ]);
            }
        }
        assert(forall|i: int|
            0 <= i < ss.drop_first().len() ==> str_bounded(#[trigger] ss.drop_first()[i]));
        lemma_dec_str_list_at(bytes, p1, ss.drop_first());
        assert(seq![ss[0]] + ss.drop_first() =~= ss);
    }
}

proof fn lemma_dec_script_at(bytes: Seq<u8>, pos: int, p: PowerScriptV)
    requires
        script_bounded(p),
        0 <= pos,
        pos + enc_script(p).len() <= bytes.len(),
        bytes.subrange(pos, pos + enc_script(p).len()) == enc_script(p),
    ensures
        dec_script(bytes, pos) == Option::Some((p, pos + enc_script(p).len())),
{
    lemma_auto_spec_u64_to_from_le_bytes();
    let a = enc_str(p.location);
    let b = enc_u64v(p.args.len() as u64);
    let c = enc_str_list(p.args);
    let whole = enc_script(p);
    assert(whole == a + b + c);
    assert(bytes.subrange(pos, pos + a.len() as int) =~= a) by {
        assert forall|i: int|
            0 <= i < a.len() implies bytes.subrange(pos, pos + a.len() as int)[i] == a[i] by {
            assert(bytes.subrange(pos, pos + whole.len() as int)[i] == whole[i]);
        }
    }
    lemma_dec_str_at(bytes, pos, p.location);
    let p1 = pos + a.len() as int;
    assert(bytes.subrange(p1, p1 + 8) =~= b) by {
        assert forall|i: int| 0 <= i < 8 implies bytes.subrange(p1, p1 + 8)[i] == b[i] by {
            assert(bytes.subrange(pos, pos + whole.len() as int)[a.len() + i] == whole[a.len()
                + i]);
        }
    }
    lemma_dec_u64_at(bytes, p1, p.args.len() as u64);
    let p2 = p1 + 8;
    assert(bytes.subrange(p2, p2 + c.len() as int) =~= c) by {
        assert forall|i: int|
            0 <= i < c.len() implies bytes.subrange(p2, p2 + c.len() as int)[i] == c[i] by {
            assert(bytes.subrange(pos, pos + whole.len() as int)[a.len() + 8 + i] == whole[a.len()
                + 8 + i]);
        }
    }
    lemma_dec_str_list_at(bytes, p2, p.args);
}

proof fn lemma_dec_opt_script_at(bytes: Seq<u8>, pos: int, o: Option<PowerScriptV>)
    requires
        opt_script_bounded(o),
        0 <= pos,
        pos + enc_opt_script(o).len() <= bytes.len(),
        bytes.subrange(pos, pos + enc_opt_script(o).len()) == enc_opt_script(o),
    ensures
        dec_opt_script(bytes, pos) == Option::Some((o, pos + enc_opt_script(o).len())),
{
    let whole = enc_opt_script(o);
    assert(bytes[pos] == whole[0]) by {
        assert(bytes.subrange(pos, pos + whole.len() as int)[0] == whole[0]);
    }
    match o {
        Option::None => {
            assert(whole[0] == 0);
        },
        Option::Some(p) => {
            assert(whole[0] == 1);
            let body = enc_script(p);
            assert(whole == seq![1u8] + body);
            assert(bytes.subrange(pos + 1, pos + 1 + body.len() as int) =~= body) by {
                assert forall|i: int|
                    0 <= i < body.len() implies bytes.subrange(
                    pos + 1,
                    pos + 1 + body.len() as int,
                )[i] == body[i] by {
                    assert(bytes.subrange(pos, pos + whole.len() as int)[1 + i] == whole[1 + i]);
                }
            }
            lemma_dec_script_at(bytes, pos + 1, p);
        },
    }
}

/// The round-trip law of the cache: the record written for a compiled
/// document decodes to exactly that document.
#[verifier::rlimit(50)]
pub proof fn lemma_cache_round_trip(d: ArgonConfigRKYVV)
    requires
        crate::config::wf_doc(d),
        doc_bounded(d),
    ensures
        dec_document(spec_encode(d)) == Option::Some(d),
{
    lemma_auto_spec_u64_to_from_le_bytes();
    let a = magic();
    let b = enc_u64v(d.fan_config.interval);
    let c = seq![
        d.fan_config.hysteresis.amount,
        bool_byte(d.fan_config.hysteresis.only_way_down),
    ];
    let t = d.fan_config.table;
    let e = enc_opt_script(d.shutdown_script);
    let f = enc_opt_script(d.reboot_script);
    let bytes = spec_encode(d);
    assert(bytes == a + b + c + t + e + f);
    assert(a.len() == 4 && b.len() == 8 && c.len() == 2 && t.len() == 101);
    let n = bytes.len() as int;
    assert(n == 115 + e.len() + f.len());
    assert(bytes.subrange(0, 4) =~= a);
    assert(bytes.subrange(4, 12) =~= b);
    lemma_dec_u64_at(bytes, 4, d.fan_config.interval);
    assert(bytes[12] == d.fan_config.hysteresis.amount);
    assert(bytes[13] == bool_byte(d.fan_config.hysteresis.only_way_down));
    assert(bytes[13] <= 1);
    assert(bytes.subrange(14, 115) =~= t);
    assert(forall|i: int| 0 <= i < 101 ==> #[trigger] bytes.subrange(14, 115)[i] <= 100);
    assert(bytes.subrange(115, 115 + e.len() as int) =~= e);
    lemma_dec_opt_script_at(bytes, 115, d.shutdown_script);
    let p2 = 115 + e.len() as int;
    assert(bytes.subrange(p2, p2 + f.len() as int) =~= f);
    lemma_dec_opt_script_at(bytes, p2, d.reboot_script);
    let parsed = dec_document(bytes);
    assert(parsed is Some);
    let got = parsed->Some_0;
    assert(got.fan_config.table =~= d.fan_config.table);
    assert(got.fan_config.hysteresis == d.fan_config.hysteresis);
    assert(got == d);
}

fn read_u64(bytes: &Vec<u8>, pos: usize) -> (r: Option<(u64, usize)>)
    requires
        pos <= bytes@.len(),
    ensures
        match r {
            Option::Some(vp) => dec_u64(bytes@, pos as int) == Option::Some(
                (vp.0, vp.1 as int),
            ) && vp.1 <= bytes@.len(),
            Option::None => dec_u64(bytes@, pos as int) is None,
        },
{
    if bytes.len() - pos >= 8 {
        let sl = slice_subrange(bytes.as_slice(), pos, pos + 8);
        let v = u64_from_le_bytes(sl);
        Option::Some((v, pos + 8))
    } else {
        Option::None
    }
}

fn read_bytes(bytes: &Vec<u8>, pos: usize) -> (r: Option<(Vec<u8>, usize)>)
    requires
        pos <= bytes@.len(),
    ensures
        match r {
            Option::Some(bp) => dec_bytes(bytes@, pos as int) == Option::Some(
                (bp.0@, bp.1 as int),
            ) && bp.1 <= bytes@.len(),
            Option::None => dec_bytes(bytes@, pos as int) is None,
        },
{
    match read_u64(bytes, pos) {
        Option::None => Option::None,
        Option::Some((n, p)) => {
            if n > (bytes.len() - p) as u64 {
                Option::None
            } else {
                let nn = n as usize;
                let sl = slice_subrange(bytes.as_slice(), p, p + nn);
                Option::Some((slice_to_vec(sl), p + nn))
            }
        },
    }
}

fn read_string(bytes: &Vec<u8>, pos: usize) -> (r: Option<(String, usize)>)
    requires
        pos <= bytes@.len(),
    ensures
        match r {
            Option::Some(sp) => dec_str(bytes@, pos as int) == Option::Some(
                (sp.0@, sp.1 as int),
            ) && sp.1 <= bytes@.len(),
            Option::None => dec_str(bytes@, pos as int) is None,
        },
{
    match read_bytes(bytes, pos) {
        Option::None => Option::None,
        Option::Some((b, p)) => match bytes_to_string(b) {
            Option::None => Option::None,
            Option::Some(s) => Option::Some((s, p)),
        },
    }
}

/// What it means for a partial parse of a string list to determine the
/// whole one: however the remaining items parse, the full list parses
/// to the accumulated items followed by the remaining ones.
spec fn list_continues(
    bytes: Seq<u8>,
    pos0: int,
    count: int,
    cur: int,
    rem: int,
    acc: Seq<Seq<char>>,
) -> bool {
    match dec_str_list(bytes, cur, rem) {
        Option::None => dec_str_list(bytes, pos0, count) is None,
        Option::Some((rest, q)) => dec_str_list(bytes, pos0, count) == Option::Some(
            (acc + rest, q),
        ),
    }
}

fn read_str_list(bytes: &Vec<u8>, pos: usize, count: u64) -> (r: Option<(Vec<String>, usize)>)
    requires
        pos <= bytes@.len(),
    ensures
        match r {
            Option::Some(lp) => dec_str_list(bytes@, pos as int, count as int) == Option::Some(
                (lp.0.deep_view(), lp.1 as int),
            ) && lp.1 <= bytes@.len(),
            Option::None => dec_str_list(bytes@, pos as int, count as int) is None,
        },
{
    let mut acc: Vec<String> = Vec::new();
    let mut cur: usize = pos;
    let mut i: u64 = 0;
    proof {
        assert(acc.deep_view() =~= Seq::<Seq<char>>::empty());
    }
    while i < count
        invariant
            i <= count,
            cur <= bytes@.len(),
            list_continues(
                bytes@,
                pos as int,
                count as int,
                cur as int,
                count - i,
                acc.deep_view(),
            ),
        decreases count - i,
    {
        let ghost acc_pre = acc.deep_view();
        match read_string(bytes, cur) {
            Option::None => {
                return Option::None;
            },
            Option::Some((s, p)) => {
                let ghost prev_vec = acc@;
                acc.push(s);
                proof {
                    assert(acc@ == prev_vec.push(acc@[prev_vec.len() as int]));
                    assert forall|j: int| 0 <= j < acc@.len() implies acc.deep_view()[j]
                        == acc_pre.push(s@)[j] by {
                        if j < prev_vec.len() {
                            assert(acc@[j] == prev_vec[j]);
                        }
                    }
                    assert(acc.deep_view() =~= acc_pre.push(s@));
                    let rem = count - i;
                    match dec_str_list(bytes@, p as int, rem - 1) {
                        Option::None => {},
                        Option::Some((rest, q)) => {
                            assert(dec_str_list(bytes@, cur as int, rem as int)
                                == Option::Some((seq![s@] + rest, q)));
                            assert(acc_pre + (seq![s@] + rest) =~= acc_pre.push(s@) + rest);
                        },
                    }
                }
                cur = p;
                i = i + 1;
            },
        }
    }
    proof {
        assert(dec_str_list(bytes@, cur as int, 0) == Option::Some(
            (Seq::<Seq<char>>::empty(), cur as int),
        ));
        assert(acc.deep_view() + Seq::<Seq<char>>::empty() =~= acc.deep_view());
    }
    Option::Some((acc, cur))
}

fn read_opt_script(bytes: &Vec<u8>, pos: usize) -> (r: Option<(Option<PowerScript>, usize)>)
    requires
        pos <= bytes@.len(),
    ensures
        match r {
            Option::Some(op) => dec_opt_script(bytes@, pos as int) == Option::Some(
                (crate::config::script_option_view(op.0), op.1 as int),
            ) && op.1 <= bytes@.len(),
            Option::None => dec_opt_script(bytes@, pos as int) is None,
        },
{
    if pos >= bytes.len() {
        return Option::None;
    }
    let tag = bytes[pos];
    if tag == 0 {
        Option::Some((Option::None, pos + 1))
    } else if tag == 1 {
        match read_string(bytes, pos + 1) {
            Option::None => Option::None,
            Option::Some((location, p1)) => match read_u64(bytes, p1) {
                Option::None => Option::None,
                Option::Some((cnt, p2)) => match read_str_list(bytes, p2, cnt) {
                    Option::None => Option::None,
                    Option::Some((args, p3)) => Option::Some(
                        (Option::Some(PowerScript { location, args }), p3),
                    ),
                },
            },
        }
    } else {
        Option::None
    }
}

/// Parses a cache record back into a compiled document, validating its
/// structure; yields the document exactly when the record is
/// well-formed, and nothing otherwise.
#[verifier::loop_isolation(false)]
pub fn decode_document(bytes: &Vec<u8>) -> (r: Option<ArgonConfigRKYV>)
    ensures
        match r {
            Option::Some(d) => dec_document(bytes@) == Option::Some(d@) && crate::config::wf_doc(
                d@,
            ),
            Option::None => dec_document(bytes@) is None,
        },
{
    if bytes.len() < 4 {
        return Option::None;
    }
    if !(bytes[0] == 0xA7 && bytes[1] == 0x46 && bytes[2] == 0x43 && bytes[3] == 0x01) {
        proof {
            assert(bytes@.subrange(0, 4)[0] == bytes@[0]);
            assert(bytes@.subrange(0, 4)[1] == bytes@[1]);
            assert(bytes@.subrange(0, 4)[2] == bytes@[2]);
            assert(bytes@.subrange(0, 4)[3] == bytes@[3]);
        }
        return Option::None;
    }
    proof {
        assert(bytes@.subrange(0, 4) =~= magic());
    }
    let interval_read = read_u64(bytes, 4);
    match interval_read {
        Option::None => Option::None,
        Option::Some((interval, p1)) => {
            if bytes.len() - p1 < 2 {
                return Option::None;
            }
            let amount = bytes[p1];
            let owd_byte = bytes[p1 + 1];
            if amount > 100 || owd_byte > 1 {
                return Option::None;
            }
            if bytes.len() - p1 < 103 {
                return Option::None;
            }
            let table = slice_to_vec(slice_subrange(bytes.as_slice(), p1 + 2, p1 + 103));
            let mut i: usize = 0;
            while i < 101
                invariant
                    i <= 101,
                    table@ == bytes@.subrange(p1 as int + 2, p1 as int + 103),
                    table@.len() == 101,
                    forall|j: int| 0 <= j < i ==> #[trigger] table@[j] <= 100,
                decreases 101 - i,
            {
                if table[i] > 100 {
                    proof {
                        assert(bytes@.subrange(p1 as int + 2, p1 as int + 103)[i as int] > 100);
                    }
                    return Option::None;
                }
                i = i + 1;
            }
            match read_opt_script(bytes, p1 + 103) {
                Option::None => Option::None,
                Option::Some((shutdown_script, p2)) => match read_opt_script(bytes, p2) {
                    Option::None => Option::None,
                    Option::Some((reboot_script, p3)) => {
                        if p3 != bytes.len() {
                            return Option::None;
                        }
                        let d = ArgonConfigRKYV {
                            fan_config: FanConfigRKYV {
                                interval,
                                hysteresis: Hysteresis { amount, only_way_down: owd_byte == 1 },
                                matrix: TemperatureCurve { table },
                            },
                            shutdown_script,
                            reboot_script,
                        };
                        proof {
                            assert(dec_document(bytes@) == Option::Some(d@));
                        }
                        Option::Some(d)
                    },
                },
            }
        },
    }
}

} // verus!
