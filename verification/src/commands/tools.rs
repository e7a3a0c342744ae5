//! Calling a tool and picking fields out of its result.
use vstd::prelude::*;
use crate::commands::{resolve_path, resolve_path_spec};
use crate::error::CodaError;
use crate::json::{Json, JsonV};
use crate::output::{build_picked_object, picked_object_spec};
use crate::text::{
    chars_of, contains, split_char, split_exec, str_contains, string_of, trim, trim_chars, views,
};

verus! {

/// What picking gives: one value, printed bare, or an object of several.
pub enum Picked {
    One(Json),
    Many(Json),
}

/// The comma-separated paths of a pick, each trimmed.
pub open spec fn pick_parts(paths: Seq<char>) -> Seq<Seq<char>> {
    split_char(paths, ',').map_values(|p: Seq<char>| trim(p))
}

/// Resolves every path in order; the first that fails decides the error.
pub open spec fn resolve_all(v: JsonV, parts: Seq<Seq<char>>) -> Result<Seq<JsonV>, Seq<char>>
    decreases parts.len(),
{
    if parts.len() == 0 {
        Ok(Seq::empty())
    } else {
        match resolve_path_spec(v, parts[0]) {
            Err(m) => Err(m),
            Ok(x) => match resolve_all(v, parts.drop_first()) {
                Ok(xs) => Ok(seq![x] + xs),
                Err(m) => Err(m),
            },
        }
    }
}

/// The values already resolved, put in front of what the rest gives.
pub open spec fn prepend_all(done: Seq<JsonV>, rest: Result<Seq<JsonV>, Seq<char>>) -> Result<Seq<JsonV>, Seq<char>> {
    match rest {
        Ok(xs) => Ok(done + xs),
        Err(m) => Err(m),
    }
}

/// What picking `paths` out of `v` gives: with a comma, an object of the trimmed
/// paths' values; without, the one value the path reaches.
pub open spec fn pick_spec(v: JsonV, paths: Seq<char>) -> Result<(bool, JsonV), Seq<char>> {
    if contains(paths, ","@) {
        match resolve_all(v, pick_parts(paths)) {
            Ok(xs) => Ok((true, picked_object_spec(pick_parts(paths), xs))),
            Err(m) => Err(m),
        }
    } else {
        match resolve_path_spec(v, paths) {
            Ok(x) => Ok((false, x)),
            Err(m) => Err(m),
        }
    }
}

/// Trims each comma-separated part of a pick.
pub fn split_pick_parts(paths: &str) -> (r: Vec<String>)
    ensures
        crate::text::string_views(r@) == pick_parts(paths@),
{
    let pc = chars_of(paths);
    let segs = split_exec(pc.as_slice(), ',');
    let mut out: Vec<String> = Vec::new();
    let mut i: usize = 0;
    while i < segs.len()
        invariant
            i <= segs.len(),
            views(segs@) == split_char(paths@, ','),
            crate::text::string_views(out@) == pick_parts(paths@).take(i as int),
        decreases segs.len() - i,
    {
        let t = trim_chars(segs[i].as_slice());
        let s = string_of(t.as_slice());
        let ghost before = out@;
        assert(views(segs@)[i as int] == segs@[i as int]@);
        out.push(s);
        assert(crate::text::string_views(out@) =~= crate::text::string_views(before).push(s@));
        assert(pick_parts(paths@).take(i + 1) =~= pick_parts(paths@).take(i as int).push(s@));
        i = i + 1;
    }
    assert(pick_parts(paths@).take(i as int) =~= pick_parts(paths@));
    out
}

/// Extract one or more fields from a JSON value.
/// Supports comma-separated paths: "name,id" extracts as JSON object {"name": ..., "id": ...}.
/// Each path is dot-separated: "items.0.id" walks into nested objects/arrays.
pub fn pick_fields(value: &Json, paths: &str) -> (r: Result<Picked, CodaError>)
    ensures
        pick_spec(value@, paths@) matches Ok((many, x)) ==> (r matches Ok(p) && (match p {
            Picked::One(y) => !many && y@ == x,
            Picked::Many(y) => many && y@ == x,
        })),
        pick_spec(value@, paths@) matches Err(m) ==> r matches Err(CodaError::Validation(e)) && e@ == m,
{
    if str_contains(paths, ",") {
        let parts = split_pick_parts(paths);
        let ghost ps = pick_parts(paths@);
        let mut names: Vec<&str> = Vec::new();
        let mut resolved: Vec<&Json> = Vec::new();
        let mut i: usize = 0;
        assert(ps.skip(0) =~= ps);
        while i < parts.len()
            invariant
                i <= parts.len(),
                names.len() == i,
                resolved.len() == i,
                crate::text::string_views(parts@) == ps,
                ps == pick_parts(paths@),
                contains(paths@, ","@),
                forall|k: int| 0 <= k < i ==> (#[trigger] names@[k])@ == ps[k],
                resolve_all(value@, ps) == prepend_all(crate::output::ref_views(resolved@), resolve_all(value@, ps.skip(i as int))),
            decreases parts.len() - i,
        {
            let p = parts[i].as_str();
            assert(p@ == ps[i as int]);
            assert(ps.skip(i as int).drop_first() =~= ps.skip(i + 1));
            match resolve_path(value, p) {
                Ok(x) => {
                    let ghost before = resolved@;
                    names.push(p);
                    resolved.push(x);
                    assert(crate::output::ref_views(resolved@) =~= crate::output::ref_views(before) + seq![x@]);
                    proof {
                        let rb = crate::output::ref_views(before);
                        match resolve_all(value@, ps.skip(i + 1)) {
                            Ok(xs) => {
                                assert(rb + (seq![x@] + xs) =~= (rb + seq![x@]) + xs);
                            },
                            Err(_) => {},
                        }
                    }
                },
                Err(e) => {
                    assert(resolve_all(value@, ps.skip(i as int)) is Err);
                    return Err(e);
                },
            }
            i = i + 1;
        }
        assert(ps.skip(i as int) =~= Seq::<Seq<char>>::empty());
        assert(crate::output::str_views(names@) =~= ps);
        assert(crate::output::ref_views(resolved@) + Seq::<JsonV>::empty() =~= crate::output::ref_views(resolved@));
        let obj = build_picked_object(names.as_slice(), resolved.as_slice());
        Ok(Picked::Many(obj))
    } else {
        match resolve_path(value, paths) {
            Ok(x) => Ok(Picked::One(x.duplicate())),
            Err(e) => Err(e),
        }
    }
}

} // verus!
