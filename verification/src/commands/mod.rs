//! The commands of the command line interface: the logic each one runs.
use vstd::prelude::*;
use crate::error::CodaError;
use crate::json::{Json, JsonV, keys_of, exec_keys, lemma_object_keys};
use crate::text::{
    chars_of, string_of, split_exec, split_char, views, parse_usize, parse_usize_exec,
    decimal, push_decimal, decimal_string, extend_str, extend_chars, join, join_strings,
    string_views, lemma_split_char_nonempty,
};

pub mod tools;
pub mod shell;
pub mod compound;
pub mod sync;
pub mod sync_run;
pub mod sync_report;
pub mod rows;
pub mod discover;
pub mod schema;
pub mod mcp;

verus! {

/// One step of a path: a segment that reads as an index steps into an array,
/// any other segment looks up an object key.
pub open spec fn segment_step(v: JsonV, seg: Seq<char>) -> Option<JsonV> {
    match parse_usize(seg) {
        Some(i) => v.at(i as int),
        None => v.get(seg),
    }
}

/// Walks the segments in order: the value reached, or the segment that could not
/// be followed together with the value it was tried on.
pub open spec fn walk(v: JsonV, segs: Seq<Seq<char>>) -> Result<JsonV, (Seq<char>, JsonV)>
    decreases segs.len(),
{
    if segs.len() == 0 {
        Ok(v)
    } else {
        match segment_step(v, segs[0]) {
            Some(next) => walk(next, segs.drop_first()),
            None => Err((segs[0], v)),
        }
    }
}

/// The keys or indices offered as a hint where a path cannot be followed: an
/// object's keys; an array's indices, or their range when there are more than five.
pub open spec fn available_keys_spec(v: JsonV) -> Seq<Seq<char>> {
    match v {
        JsonV::Object(es) => keys_of(es),
        JsonV::Array(a) => {
            if a.len() <= 5 {
                Seq::new(a.len(), |i: int| decimal(i as nat))
            } else {
                seq!["0.."@ + decimal((a.len() - 1) as nat)]
            }
        },
        _ => Seq::empty(),
    }
}

/// The message of a path that cannot be followed.
pub open spec fn not_found_message(path: Seq<char>, seg: Seq<char>, keys: Seq<Seq<char>>) -> Seq<char> {
    "Field '"@ + path + "' not found (failed at '"@ + seg + "')"@ + (if keys.len() == 0 {
        Seq::empty()
    } else {
        ". Available: "@ + join(keys, ", "@)
    })
}

/// What walking the dot-separated `path` through `v` gives.
pub open spec fn resolve_path_spec(v: JsonV, path: Seq<char>) -> Result<JsonV, Seq<char>> {
    match walk(v, split_char(path, '.')) {
        Ok(x) => Ok(x),
        Err((seg, at)) => Err(not_found_message(path, seg, available_keys_spec(at))),
    }
}

/// List available keys/indices for error hints.
pub fn available_keys(value: &Json) -> (r: Vec<String>)
    ensures
        string_views(r@) == available_keys_spec(value@),
{
    match value {
        Json::Object(entries) => {
            let mut out: Vec<String> = Vec::new();
            let mut i: usize = 0;
            proof { lemma_object_keys(*entries); }
            while i < entries.len()
                invariant
                    i <= entries.len(),
                    string_views(out@) == exec_keys(entries@).take(i as int),
                decreases entries.len() - i,
            {
                let key = entries[i].0.clone();
                assert(key@ == exec_keys(entries@)[i as int]);
                let ghost before = out@;
                out.push(key);
                assert(out@ == before.push(key));
                assert(string_views(out@) =~= string_views(before).push(key@));
                i = i + 1;
                assert(string_views(out@) =~= exec_keys(entries@).take(i as int));
            }
            assert(exec_keys(entries@).take(i as int) =~= exec_keys(entries@));
            out
        },
        Json::Array(arr) => {
            let n = arr.len();
            if n <= 5 {
                let mut out: Vec<String> = Vec::new();
                let mut i: usize = 0;
                while i < n
                    invariant
                        i <= n,
                        n == arr.len(),
                        string_views(out@) == Seq::new(i as nat, |k: int| decimal(k as nat)),
                    decreases n - i,
                {
                    let d = decimal_string(i as u64);
                    let ghost before = out@;
                    out.push(d);
                    assert(string_views(out@) =~= string_views(before).push(d@));
                    i = i + 1;
                    assert(string_views(out@) =~= Seq::new(i as nat, |k: int| decimal(k as nat)));
                }
                out
            } else {
                let mut v: Vec<char> = Vec::new();
                extend_str(&mut v, "0..");
                push_decimal(&mut v, (n - 1) as u64);
                let mut out: Vec<String> = Vec::new();
                out.push(string_of(v.as_slice()));
                assert(string_views(out@) =~= seq!["0.."@ + decimal((n - 1) as nat)]);
                out
            }
        },
        _ => {
            let out: Vec<String> = Vec::new();
            assert(string_views(out@) =~= Seq::<Seq<char>>::empty());
            out
        },
    }
}

fn not_found_error(path: &str, seg: &[char], at: &Json) -> (r: CodaError)
    ensures
        r matches CodaError::Validation(m) && m@ == not_found_message(path@, seg@, available_keys_spec(at@)),
{
    let available = available_keys(at);
    let mut v: Vec<char> = Vec::new();
    extend_str(&mut v, "Field '");
    extend_str(&mut v, path);
    extend_str(&mut v, "' not found (failed at '");
    extend_chars(&mut v, seg);
    extend_str(&mut v, "')");
    if available.len() > 0 {
        extend_str(&mut v, ". Available: ");
        let joined = join_strings(&available, ", ");
        extend_str(&mut v, joined.as_str());
    }
    assert(v@ =~= not_found_message(path@, seg@, available_keys_spec(at@)));
    CodaError::Validation(string_of(v.as_slice()))
}

/// Walk a dot-separated path through a JSON value: a segment that reads as an
/// index steps into an array, any other segment looks up an object key.
pub fn resolve_path<'a>(value: &'a Json, path: &str) -> (r: Result<&'a Json, CodaError>)
    ensures
        resolve_path_spec(value@, path@) matches Ok(x) ==> r matches Ok(y) && y@ == x,
        resolve_path_spec(value@, path@) matches Err(m) ==> r matches Err(CodaError::Validation(e)) && e@ == m,
{
    let pc = chars_of(path);
    let segs = split_exec(pc.as_slice(), '.');
    let ghost ss = split_char(path@, '.');
    let mut current: &'a Json = value;
    let mut k: usize = 0;
    assert(ss.skip(0) =~= ss);
    while k < segs.len()
        invariant
            k <= segs.len(),
            views(segs@) == ss,
            ss == split_char(path@, '.'),
            walk(value@, ss) == walk(current@, ss.skip(k as int)),
        decreases segs.len() - k,
    {
        let seg = &segs[k];
        assert(ss[k as int] == seg@);
        assert(ss.skip(k as int).drop_first() =~= ss.skip(k + 1));
        let step = match parse_usize_exec(seg.as_slice()) {
            Some(i) => current.at(i),
            None => {
                let key = string_of(seg.as_slice());
                current.get(key.as_str())
            },
        };
        match step {
            Some(next) => {
                current = next;
            },
            None => {
                return Err(not_found_error(path, seg.as_slice(), current));
            },
        }
        k = k + 1;
    }
    assert(ss.skip(k as int) =~= Seq::<Seq<char>>::empty());
    Ok(current)
}

} // verus!
