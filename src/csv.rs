//! Lists of app requests read from CSV text.
use vstd::prelude::*;
use crate::index::opt_chars;
use crate::text::{split, split_on, trim, trimmed, views};

verus! {

/// The request that one line of CSV text makes, with 0-based column numbers:
/// the app in column `field`, and the version in column `version_field` where
/// the line has that column and it is not empty. A line with too few columns,
/// or with nothing but white space, makes none.
pub open spec fn csv_record(line: Seq<char>, field: int, version_field: Option<int>) -> Option<
    (Seq<char>, Option<Seq<char>>),
> {
    let cols = split_on(trimmed(line), ',');
    if cols.len() > field && !(cols.len() == 1 && cols[0].len() == 0) {
        if version_field is Some && cols.len() > version_field->Some_0 {
            let v = cols[version_field->Some_0];
            Some((cols[field], if v.len() > 0 { Some(v) } else { None }))
        } else {
            Some((cols[field], None))
        }
    } else {
        None
    }
}

/// The requests that lines of CSV text make, in order.
pub open spec fn csv_records(lines: Seq<Seq<char>>, field: int, version_field: Option<int>) -> Seq<
    (Seq<char>, Option<Seq<char>>),
>
    decreases lines.len(),
{
    if lines.len() == 0 {
        seq![]
    } else {
        let prev = csv_records(lines.drop_last(), field, version_field);
        match csv_record(lines.last(), field, version_field) {
            Some(r) => prev.push(r),
            None => prev,
        }
    }
}

/// The views of a list of requests.
pub open spec fn requests_view(v: Seq<(String, Option<String>)>) -> Seq<(Seq<char>, Option<Seq<char>>)> {
    v.map_values(|p: (String, Option<String>)| (p.0@, opt_chars(p.1)))
}

fn csv_line(line: &str, field: usize, version_field: Option<usize>) -> (r: Option<(String, Option<String>)>)
    ensures
        match r {
            Some(p) => csv_record(
                line@,
                field as int,
                match version_field {
                    Some(v) => Some(v as int),
                    None => None,
                },
            ) == Some((p.0@, opt_chars(p.1))),
            None => csv_record(
                line@,
                field as int,
                match version_field {
                    Some(v) => Some(v as int),
                    None => None,
                },
            ) is None,
        },
{
    let entry = trim(line);
    let cols = split(entry, ',');
    proof {
        assert(views(cols@).len() == cols@.len());
    }
    if cols.len() > field && !(cols.len() == 1 && cols[0].as_str().unicode_len() == 0) {
        assert(views(cols@)[field as int] == cols@[field as int]@);
        let app_id = cols[field].clone();
        match version_field {
            Some(v) => {
                if cols.len() > v {
                    assert(views(cols@)[v as int] == cols@[v as int]@);
                    let version = cols[v].clone();
                    if version.as_str().unicode_len() > 0 {
                        return Some((app_id, Some(version)));
                    } else {
                        return Some((app_id, None));
                    }
                }
                Some((app_id, None))
            },
            None => Some((app_id, None)),
        }
    } else {
        proof {
            if cols@.len() == 1 {
                assert(views(cols@)[0] == cols@[0]@);
            }
        }
        None
    }
}

/// The requests that CSV text makes, one per line that has the app's column.
/// Columns are numbered from 1, and the two columns differ.
pub fn parse_csv_text(text: String, field: usize, version_field: Option<usize>) -> (r: Vec<
    (String, Option<String>),
>)
    requires
        field >= 1,
        version_field matches Some(v) ==> v >= 1 && v != field,
    ensures
        requests_view(r@) == csv_records(
            split_on(text@, '\n'),
            field - 1,
            match version_field {
                Some(v) => Some(v - 1),
                None => None,
            },
        ),
{
    let f = field - 1;
    let vf = match version_field {
        Some(v) => Some(v - 1),
        None => None,
    };
    let ghost vfi = match vf {
        Some(v) => Some(v as int),
        None => None,
    };
    let lines = split(text.as_str(), '\n');
    let ghost lv = views(lines@);
    let mut out: Vec<(String, Option<String>)> = Vec::new();
    let mut i: usize = 0;
    proof {
        assert(lv.subrange(0, 0) =~= Seq::<Seq<char>>::empty());
        assert(requests_view(out@) =~= Seq::<(Seq<char>, Option<Seq<char>>)>::empty());
    }
    while i < lines.len()
        invariant
            lv == views(lines@),
            lv.len() == lines@.len(),
            i <= lines@.len(),
            vfi == match vf {
                Some(v) => Some(v as int),
                None => None,
            },
            requests_view(out@) == csv_records(lv.subrange(0, i as int), f as int, vfi),
        decreases lines@.len() - i,
    {
        let ghost before = requests_view(out@);
        proof {
            assert(lv.subrange(0, i + 1).drop_last() =~= lv.subrange(0, i as int));
            assert(lv.subrange(0, i + 1).last() == lines@[i as int]@);
        }
        match csv_line(lines[i].as_str(), f, vf) {
            Some(p) => {
                out.push(p);
                proof {
                    assert(requests_view(out@) =~= before.push((p.0@, opt_chars(p.1))));
                }
            },
            None => {},
        }
        i = i + 1;
    }
    proof {
        assert(lv.subrange(0, lv.len() as int) =~= lv);
    }
    out
}

} // verus!
