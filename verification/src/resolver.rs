//! The resolver: turns the raw facts the process gathered at startup —
//! modification times and file contents of the source document and the
//! binary cache — into a configuration document that is always usable,
//! falling back from cache to source to the built-in default.
//!
//! The filesystem itself is the caller's affair: the caller reads the
//! two files, hands their contents here, and performs the one cache
//! deletion this module may ask for.

use crate::codec::{dec_document, decode_document, encode_document, spec_encode};
use crate::config::{
    build_doc_v, build_document, default_doc_v, wf_doc, ArgonConfigRKYV, ArgonConfigRKYVV,
    ArgonConfigValue,
};
use crate::source::{load_source, spec_load, yaml_parse_of};
use vstd::prelude::*;

verus! {

/// What the cache yielded: a usable document, nothing usable, or
/// bytes that fail structural validation.
pub enum CachedOutcome {
    Hit(ArgonConfigRKYV),
    Miss,
    Corrupt,
}

/// A cache record is trusted only when both modification times are
/// known and the record is at least as new as the source document.
pub open spec fn cache_fresh(source_mtime: Option<u64>, cache_mtime: Option<u64>) -> bool {
    match (source_mtime, cache_mtime) {
        (Option::Some(s), Option::Some(c)) => c >= s,
        _ => false,
    }
}

/// Classifies the cache: a fresh record that decodes is a `Hit` with
/// exactly the decoded document; a fresh record that fails validation
/// is `Corrupt`; everything else — no record, no readable bytes, or a
/// record older than the source — is a `Miss`.
pub fn cache_probe(
    source_mtime: Option<u64>,
    cache_mtime: Option<u64>,
    cache_bytes: &Option<Vec<u8>>,
) -> (r: CachedOutcome)
    ensures
        match r {
            CachedOutcome::Hit(d) => {
                &&& cache_fresh(source_mtime, cache_mtime)
                &&& cache_bytes matches Option::Some(b) && dec_document(b@) == Option::Some(d@)
                &&& wf_doc(d@)
            },
            CachedOutcome::Miss => !cache_fresh(source_mtime, cache_mtime) || cache_bytes is None,
            CachedOutcome::Corrupt => {
                &&& cache_fresh(source_mtime, cache_mtime)
                &&& cache_bytes matches Option::Some(b) && dec_document(b@) is None
            },
        },
{
    let fresh = match (source_mtime, cache_mtime) {
        (Option::Some(s), Option::Some(c)) => c >= s,
        _ => false,
    };
    if !fresh {
        return CachedOutcome::Miss;
    }
    match cache_bytes {
        Option::None => CachedOutcome::Miss,
        Option::Some(b) => match decode_document(b) {
            Option::Some(d) => CachedOutcome::Hit(d),
            Option::None => CachedOutcome::Corrupt,
        },
    }
}

/// The value of optional bytes.
pub open spec fn bytes_option_view(o: Option<Vec<u8>>) -> Option<Seq<u8>> {
    match o {
        Option::None => Option::None,
        Option::Some(b) => Option::Some(b@),
    }
}

/// What a rebuild from the source owes, as a function of the source
/// bytes: when they are present and their named parse passes
/// validation, the compiled document of that parse and its cache
/// record; otherwise the built-in default and nothing to write.
pub open spec fn rebuild_result(source: Option<Seq<u8>>) -> (ArgonConfigRKYVV, Option<Seq<u8>>) {
    match source {
        Option::None => (default_doc_v(), Option::None),
        Option::Some(b) => match spec_load(yaml_parse_of(b)) {
            Result::Err(_) => (default_doc_v(), Option::None),
            Result::Ok(raw) => (
                build_doc_v(raw),
                Option::Some(spec_encode(build_doc_v(raw))),
            ),
        },
    }
}

/// What a rebuild yields: a freshly built, well-formed document and
/// record equal to `rebuild_result` of the given source bytes.
pub open spec fn rebuild_post(
    source: Option<Seq<u8>>,
    v: ArgonConfigValue,
    w: Option<Vec<u8>>,
) -> bool {
    &&& v is NonArchived
    &&& wf_doc(v.document_view())
    &&& v.document_view() == rebuild_result(source).0
    &&& bytes_option_view(w) == rebuild_result(source).1
}

/// Rebuilds the configuration from the source document's bytes: loads
/// and validates them, compiles the curve, and serializes the result
/// for the cache; with no bytes or a rejected document, yields the
/// built-in default and nothing to write — exactly `rebuild_result`.
pub fn rebuild_from_source(source_bytes: &Option<Vec<u8>>) -> (r: (
    ArgonConfigValue,
    Option<Vec<u8>>,
))
    ensures
        rebuild_post(bytes_option_view(*source_bytes), r.0, r.1),
{
    match source_bytes {
        Option::None => (ArgonConfigValue::NonArchived(ArgonConfigRKYV::default()), Option::None),
        Option::Some(bytes) => match load_source(bytes) {
            Result::Err(_) => (
                ArgonConfigValue::NonArchived(ArgonConfigRKYV::default()),
                Option::None,
            ),
            Result::Ok(raw) => {
                let ghost raw_v = raw@;
                let doc = build_document(raw);
                let record = encode_document(&doc);
                proof {
                    assert(ArgonConfigValue::NonArchived(doc).document_view() == build_doc_v(
                        raw_v,
                    ));
                }
                (ArgonConfigValue::NonArchived(doc), Option::Some(record))
            },
        },
    }
}

/// What the resolver asks of its caller: either the configuration is
/// ready — use the document, and best-effort write the cache record if
/// one is supplied — or the cache is corrupt and must be deleted, after
/// which resolution continues with `resolve_after_delete`.
pub enum Resolution {
    Ready(ArgonConfigValue, Option<Vec<u8>>),
    CorruptCache,
}

/// Resolves the configuration from the gathered facts, in the order
/// the fallback chain owes: a fresh, valid cache record wins and is
/// returned as-is with nothing to write; a fresh but invalid record
/// demands a deletion; otherwise the configuration is rebuilt from the
/// source, falling back to the built-in default.
pub fn load_argon_config(
    source_mtime: Option<u64>,
    source_bytes: &Option<Vec<u8>>,
    cache_mtime: Option<u64>,
    cache_bytes: &Option<Vec<u8>>,
) -> (r: Resolution)
    ensures
        (cache_fresh(source_mtime, cache_mtime) && (cache_bytes matches Option::Some(b)
            && dec_document(b@) is Some)) ==> (r matches Resolution::Ready(v, w) && (v matches
            ArgonConfigValue::Archived(d) && Option::Some(d@) == dec_document(
            cache_bytes->Some_0@,
        )) && w is None),
        (cache_fresh(source_mtime, cache_mtime) && (cache_bytes matches Option::Some(b)
            && dec_document(b@) is None)) ==> r is CorruptCache,
        (!cache_fresh(source_mtime, cache_mtime) || cache_bytes is None) ==> (r matches
            Resolution::Ready(v, w) && rebuild_post(bytes_option_view(*source_bytes), v, w)),
{
    match cache_probe(source_mtime, cache_mtime, cache_bytes) {
        CachedOutcome::Hit(d) => Resolution::Ready(ArgonConfigValue::Archived(d), Option::None),
        CachedOutcome::Corrupt => Resolution::CorruptCache,
        CachedOutcome::Miss => {
            let (v, w) = rebuild_from_source(source_bytes);
            Resolution::Ready(v, w)
        },
    }
}

/// Continues resolution after a corrupt cache record was found. When
/// the caller managed to delete the record, the configuration is
/// rebuilt from the source as on a plain miss; when even the deletion
/// failed, the built-in default is used outright, with nothing
/// written, so that resolution always terminates.
pub fn resolve_after_delete(delete_ok: bool, source_bytes: &Option<Vec<u8>>) -> (r: (
    ArgonConfigValue,
    Option<Vec<u8>>,
))
    ensures
        !delete_ok ==> r.0.document_view() == default_doc_v() && r.1 is None && wf_doc(
            r.0.document_view(),
        ),
        delete_ok ==> rebuild_post(bytes_option_view(*source_bytes), r.0, r.1),
{
    if delete_ok {
        rebuild_from_source(source_bytes)
    } else {
        (ArgonConfigValue::NonArchived(ArgonConfigRKYV::default()), Option::None)
    }
}

} // verus!
