//! Project category colours as Daylite defines them.

use crate::text::{opt_view, push_char, push_str, starts_with, trim, trimmed};
use vstd::prelude::*;
use vstd::string::StrSliceExecFns;

verus! {

/// A category as Daylite's API sends it.
#[derive(Clone, Debug, PartialEq, Eq)]
pub struct DayliteCategoryDto {
    pub name: String,
    pub hex_colour: Option<String>,
}

/// The category listing as Daylite answers it: wrapped in `results`, or bare.
#[derive(Clone, Debug, PartialEq, Eq)]
pub enum DayliteCategoryListDto {
    Wrapped { results: Vec<DayliteCategoryDto> },
    Bare(Vec<DayliteCategoryDto>),
}

impl DayliteCategoryListDto {
    /// The categories of either shape.
    pub fn into_categories(self) -> (r: Vec<DayliteCategoryDto>)
        ensures
            r == match self {
                DayliteCategoryListDto::Wrapped { results } => results,
                DayliteCategoryListDto::Bare(results) => results,
            },
    {
        match self {
            DayliteCategoryListDto::Wrapped { results } => results,
            DayliteCategoryListDto::Bare(results) => results,
        }
    }
}

/// A colour trimmed and prefixed with `#` when it lacks one; absent when blank.
pub open spec fn normalized_hex_colour(value: Option<Seq<char>>) -> Option<Seq<char>> {
    match value {
        Some(v) => if trimmed(v).len() == 0 {
            None
        } else if seq!['#'].is_prefix_of(trimmed(v)) {
            Some(trimmed(v))
        } else {
            Some(seq!['#'] + trimmed(v))
        },
        None => None,
    }
}

/// Normalises a colour (see `normalized_hex_colour`).
pub fn normalize_hex_colour(value: Option<String>) -> (r: Option<String>)
    ensures
        opt_view(r) == normalized_hex_colour(opt_view(value)),
{
    let v = match value {
        Some(v) => v,
        None => return None,
    };
    let t = trim(v.as_str());
    if t.as_str().unicode_len() == 0 {
        return None;
    }
    if starts_with(t.as_str(), "#") {
        proof {
            reveal_strlit("#");
            assert("#"@ =~= seq!['#']);
        }
        return Some(t);
    }
    proof {
        reveal_strlit("#");
        assert("#"@ =~= seq!['#']);
    }
    let mut r = String::new();
    push_char(&mut r, '#');
    push_str(&mut r, t.as_str());
    assert(r@ =~= seq!['#'] + trimmed(v@));
    Some(r)
}

/// The colour entry of a category: its trimmed name and normalised colour,
/// none when either is blank.
pub open spec fn category_colour(c: DayliteCategoryDto) -> Option<(Seq<char>, Seq<char>)> {
    match normalized_hex_colour(opt_view(c.hex_colour)) {
        Some(colour) => if trimmed(c.name@).len() == 0 {
            None
        } else {
            Some((trimmed(c.name@), colour))
        },
        None => None,
    }
}

/// The colour entries of the categories that have both a name and a colour, in order.
pub open spec fn category_colours(cs: Seq<DayliteCategoryDto>) -> Seq<(Seq<char>, Seq<char>)>
    decreases cs.len(),
{
    if cs.len() == 0 {
        Seq::empty()
    } else {
        match category_colour(cs.last()) {
            Some(e) => category_colours(cs.drop_last()).push(e),
            None => category_colours(cs.drop_last()),
        }
    }
}

/// The views of colour entries.
pub open spec fn colour_entries_view(v: Seq<(String, String)>) -> Seq<(Seq<char>, Seq<char>)> {
    v.map_values(|e: (String, String)| (e.0@, e.1@))
}

fn copy_opt(o: &Option<String>) -> (r: Option<String>)
    ensures
        r == *o,
{
    match o {
        Some(s) => Some(s.clone()),
        None => None,
    }
}

/// The colour of each project category (name and colour), in Daylite's order;
/// categories without a name or colour are left out, inactive ones are kept.
pub fn project_category_colours(categories: &Vec<DayliteCategoryDto>) -> (r: Vec<(String, String)>)
    ensures
        colour_entries_view(r@) == category_colours(categories@),
{
    let n = categories.len();
    let mut r: Vec<(String, String)> = Vec::new();
    let mut i: usize = 0;
    while i < n
        invariant
            n == categories@.len(),
            i <= n,
            colour_entries_view(r@) == category_colours(categories@.take(i as int)),
        decreases n - i,
    {
        proof {
            assert(categories@.take(i + 1).drop_last() =~= categories@.take(i as int));
            assert(categories@.take(i + 1).last() == categories@[i as int]);
        }
        let c = &categories[i];
        if let Some(colour) = normalize_hex_colour(copy_opt(&c.hex_colour)) {
            let name = trim(c.name.as_str());
            if name.as_str().unicode_len() > 0 {
                let ghost before = r@;
                r.push((name, colour));
                assert(colour_entries_view(r@) =~= colour_entries_view(before).push(category_colour(categories@[i as int])->0));
            }
        }
        i = i + 1;
    }
    assert(categories@.take(n as int) =~= categories@);
    r
}

} // verus!
