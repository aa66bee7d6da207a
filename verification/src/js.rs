//! Reading values out of the JavaScript of the player page: lines of the
//! form `<prefix><value><suffix>`, `var name = value;` declarations and
//! `vInfo.key = 'value';` assignments.
use vstd::prelude::*;
use crate::text::{
    chars_of, lines, lines_vec, split_once, split_once_vec, strip_prefix, strip_prefix_vec, strip_suffix,
    strip_suffix_vec, trim, trimmed, views,
};

verus! {

/// The value a single line holds between `prefix` and `suffix`, once the
/// line is trimmed.
pub open spec fn js_value_in_line(line: Seq<char>, prefix: Seq<char>, suffix: Seq<char>) -> Option<
    Seq<char>,
> {
    match strip_prefix(trim(line), prefix) {
        Some(rest) => strip_suffix(rest, suffix),
        None => None,
    }
}

/// The value held by the first of `ls` that holds one.
pub open spec fn first_js_value(ls: Seq<Seq<char>>, prefix: Seq<char>, suffix: Seq<char>) -> Option<
    Seq<char>,
>
    decreases ls.len(),
{
    if ls.len() == 0 {
        None
    } else {
        match js_value_in_line(ls[0], prefix, suffix) {
            Some(v) => Some(v),
            None => first_js_value(ls.drop_first(), prefix, suffix),
        }
    }
}

/// The value between `prefix` and `suffix` on the first line of `source`
/// that, trimmed, begins with `prefix` and ends with `suffix`.
pub open spec fn js_value(source: Seq<char>, prefix: Seq<char>, suffix: Seq<char>) -> Option<
    Seq<char>,
> {
    first_js_value(lines(source), prefix, suffix)
}

/// The text a `var <name> = ` declaration begins with.
pub open spec fn var_prefix(name: Seq<char>) -> Seq<char> {
    "var "@ + name + " = "@
}

/// The value of the first `var <name> = <value>;` line of `source`.
pub open spec fn js_var(name: Seq<char>, source: Seq<char>) -> Option<Seq<char>> {
    js_value(source, var_prefix(name), ";"@)
}

/// The value of the first `var <name> = '<value>';` line of `source`,
/// without its single quotes.
pub open spec fn js_var_quoted(name: Seq<char>, source: Seq<char>) -> Option<Seq<char>> {
    match js_var(name, source) {
        Some(v) => match strip_prefix(v, "'"@) {
            Some(w) => strip_suffix(w, "'"@),
            None => None,
        },
        None => None,
    }
}

/// The key and value of a line `vInfo.<key> = '<value>';` (white space
/// allowed around the line, the key and the `=`).
pub open spec fn vinfo_assignment(line: Seq<char>) -> Option<(Seq<char>, Seq<char>)> {
    match strip_prefix(trim(line), "vInfo."@) {
        None => None,
        Some(rest) => match split_once(rest, "="@) {
            None => None,
            Some((key, value)) => match strip_prefix(trim(value), "'"@) {
                None => None,
                Some(quoted) => match strip_suffix(quoted, "';"@) {
                    None => None,
                    Some(v) => Some((trim(key), v)),
                },
            },
        },
    }
}

/// The value of the last assignment to `vInfo.<key>` among the lines `ls`.
pub open spec fn last_vinfo(ls: Seq<Seq<char>>, key: Seq<char>) -> Option<Seq<char>>
    decreases ls.len(),
{
    if ls.len() == 0 {
        None
    } else {
        match vinfo_assignment(ls.last()) {
            Some((k, v)) => if k == key {
                Some(v)
            } else {
                last_vinfo(ls.drop_last(), key)
            },
            None => last_vinfo(ls.drop_last(), key),
        }
    }
}

/// Looks for the first line of `source` that, trimmed, begins with `prefix`
/// and ends with `suffix`, and gives what stands between them.
pub fn find_js_value(prefix: &[char], source: &[char], suffix: &[char]) -> (r: Option<Vec<char>>)
    ensures
        match r {
            Some(v) => js_value(source@, prefix@, suffix@) == Some(v@),
            None => js_value(source@, prefix@, suffix@) is None,
        },
{
    let ls = lines_vec(source);
    let ghost lv = views(ls@);
    let mut k: usize = 0;
    assert(lv.skip(0) == lv);
    while k < ls.len()
        invariant
            lv == views(ls@),
            lv == lines(source@),
            k <= ls.len(),
            js_value(source@, prefix@, suffix@) == first_js_value(lv.skip(k as int), prefix@, suffix@),
        decreases ls.len() - k,
    {
        let line = &ls[k];
        assert(lv.skip(k as int)[0] == line@);
        let t = trimmed(line);
        match strip_prefix_vec(&t, prefix) {
            Some(rest) => match strip_suffix_vec(&rest, suffix) {
                Some(v) => {
                    return Some(v);
                },
                None => {},
            },
            None => {},
        }
        assert(lv.skip(k as int).drop_first() == lv.skip(k + 1));
        k += 1;
    }
    None
}

/// The value of the first `var <name> = <value>;` line of `source`.
pub fn find_js_var(var_name: &[char], source: &[char]) -> (r: Option<Vec<char>>)
    ensures
        match r {
            Some(v) => js_var(var_name@, source@) == Some(v@),
            None => js_var(var_name@, source@) is None,
        },
{
    let mut prefix = chars_of("var ");
    let mut k: usize = 0;
    while k < var_name.len()
        invariant
            k <= var_name.len(),
            prefix@ == "var "@ + var_name@.subrange(0, k as int),
        decreases var_name.len() - k,
    {
        prefix.push(var_name[k]);
        assert(var_name@.subrange(0, k + 1) == var_name@.subrange(0, k as int).push(var_name@[k as int]));
        k += 1;
    }
    let tail = chars_of(" = ");
    let mut j: usize = 0;
    let ghost head = prefix@;
    assert(var_name@.subrange(0, var_name.len() as int) == var_name@);
    while j < tail.len()
        invariant
            j <= tail.len(),
            prefix@ == head + tail@.subrange(0, j as int),
        decreases tail.len() - j,
    {
        prefix.push(tail[j]);
        assert(tail@.subrange(0, j + 1) == tail@.subrange(0, j as int).push(tail@[j as int]));
        j += 1;
    }
    assert(tail@.subrange(0, tail.len() as int) == tail@);
    assert(prefix@ == var_prefix(var_name@));
    let semicolon = chars_of(";");
    find_js_value(&prefix, source, &semicolon)
}

/// The value of the first `var <name> = '<value>';` line of `source`,
/// without its quotes.
pub fn find_js_var_quoted(var_name: &[char], source: &[char]) -> (r: Option<Vec<char>>)
    ensures
        match r {
            Some(v) => js_var_quoted(var_name@, source@) == Some(v@),
            None => js_var_quoted(var_name@, source@) is None,
        },
{
    let quote = chars_of("'");
    match find_js_var(var_name, source) {
        Some(v) => match strip_prefix_vec(&v, &quote) {
            Some(w) => strip_suffix_vec(&w, &quote),
            None => None,
        },
        None => None,
    }
}

/// The key and value of a `vInfo.<key> = '<value>';` line.
pub fn parse_vinfo_assignment(line: &[char]) -> (r: Option<(Vec<char>, Vec<char>)>)
    ensures
        match r {
            Some((k, v)) => vinfo_assignment(line@) == Some((k@, v@)),
            None => vinfo_assignment(line@) is None,
        },
{
    let t = trimmed(line);
    let rest = match strip_prefix_vec(&t, &chars_of("vInfo.")) {
        Some(rest) => rest,
        None => return None,
    };
    let (key, value) = match split_once_vec(&rest, &chars_of("=")) {
        Some(p) => p,
        None => return None,
    };
    let value = trimmed(&value);
    let quoted = match strip_prefix_vec(&value, &chars_of("'")) {
        Some(q) => q,
        None => return None,
    };
    let v = match strip_suffix_vec(&quoted, &chars_of("';")) {
        Some(v) => v,
        None => return None,
    };
    Some((trimmed(&key), v))
}

} // verus!
