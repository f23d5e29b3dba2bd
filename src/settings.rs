//! Small text rules around downloads: extractor arguments entered one per
//! line, image extensions, and upload dates.
use vstd::prelude::*;
use crate::text::{
    chars_of, contains, contains_exec, join, join_exec, split, split_exec, string_of,
    string_of_range, string_views, trim, trimmed, views,
};

verus! {

/// The trimmed, non-blank pieces among `pieces`, in order.
pub open spec fn kept_lines(pieces: Seq<Seq<char>>) -> Seq<Seq<char>>
    decreases pieces.len(),
{
    if pieces.len() == 0 {
        seq![]
    } else {
        let rest = kept_lines(pieces.drop_last());
        let t = trim(pieces.last());
        if t.len() > 0 {
            rest.push(t)
        } else {
            rest
        }
    }
}

/// The extractor arguments that a multi-line setting stands for: nothing
/// when every line is blank, else `--extractor-args` and the trimmed
/// non-blank lines joined by `;`.
pub open spec fn extractor_args_of(input: Seq<char>) -> Seq<Seq<char>> {
    let lines = kept_lines(split(input, '\n'));
    if lines.len() == 0 {
        seq![]
    } else {
        seq!["--extractor-args"@, join(lines, ";"@)]
    }
}

pub fn parse_extractor_args(input: &str) -> (r: Vec<String>)
    ensures
        string_views(r@) == extractor_args_of(input@),
{
    let pieces = split_exec(&chars_of(input), '\n');
    let ghost ps = views(pieces@);
    let mut kept: Vec<String> = Vec::new();
    let mut i: usize = 0;
    assert(ps.take(0) =~= Seq::<Seq<char>>::empty());
    assert(string_views(kept@) =~= Seq::<Seq<char>>::empty());
    while i < pieces.len()
        invariant
            ps == views(pieces@),
            ps == split(input@, '\n'),
            i <= pieces@.len(),
            string_views(kept@) == kept_lines(ps.take(i as int)),
        decreases pieces@.len() - i,
    {
        assert(ps.take(i + 1).drop_last() == ps.take(i as int));
        assert(ps.take(i + 1).last() == pieces@[i as int]@);
        let t = trimmed(&pieces[i]);
        if t.len() > 0 {
            let ghost k0 = string_views(kept@);
            kept.push(string_of(&t));
            assert(string_views(kept@) =~= k0.push(t@));
        }
        i += 1;
    }
    assert(ps.take(pieces@.len() as int) == ps);
    if kept.len() == 0 {
        let r: Vec<String> = Vec::new();
        assert(string_views(r@) =~= Seq::<Seq<char>>::empty());
        return r;
    }
    let joined = join_exec(&kept, ";");
    let mut r: Vec<String> = Vec::new();
    r.push("--extractor-args".to_owned());
    r.push(joined);
    assert(string_views(r@) =~= seq!["--extractor-args"@, join(kept_lines(ps), ";"@)]);
    r
}

/// The image type a thumbnail URL names: png, webp, else jpg.
pub open spec fn extension_of(url: Seq<char>) -> Seq<char> {
    if contains(url, ".png"@) {
        "png"@
    } else if contains(url, ".webp"@) {
        "webp"@
    } else {
        "jpg"@
    }
}

pub fn get_extension_from_url(url: &str) -> (r: &'static str)
    ensures
        r@ == extension_of(url@),
{
    let u = chars_of(url);
    if contains_exec(&u, &chars_of(".png")) {
        "png"
    } else if contains_exec(&u, &chars_of(".webp")) {
        "webp"
    } else {
        "jpg"
    }
}

/// An eight-character `YYYYMMDD` date as `YYYY-MM-DD`; anything else as it
/// stands.
pub open spec fn upload_date_text(d: Seq<char>) -> Seq<char> {
    if d.len() == 8 {
        d.subrange(0, 4) + "-"@ + d.subrange(4, 6) + "-"@ + d.subrange(6, 8)
    } else {
        d
    }
}

pub fn format_upload_date(date: &str) -> (r: String)
    ensures
        r@ == upload_date_text(date@),
{
    let d = chars_of(date);
    if d.len() == 8 {
        let mut r = string_of_range(&d, 0, 4);
        r.append("-");
        r.append(string_of_range(&d, 4, 6).as_str());
        r.append("-");
        r.append(string_of_range(&d, 6, 8).as_str());
        r
    } else {
        date.to_owned()
    }
}

} // verus!
