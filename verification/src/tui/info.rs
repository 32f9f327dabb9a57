//! The summary of the source configuration shown on the General tab.

use vstd::prelude::*;

use crate::flake::Flake;
use crate::module::Module;
use crate::text::{decimal_of, decimal_string};

verus! {

/// How many modules of the list are added.
pub open spec fn added_count(ms: Seq<Module>) -> nat
    decreases ms.len(),
{
    if ms.len() == 0 {
        0
    } else {
        added_count(ms.drop_last()) + if ms.last().added {
            1nat
        } else {
            0nat
        }
    }
}

/// The share of added modules in percent, rounded down (zero of none).
pub open spec fn added_percent(added: nat, total: nat) -> nat {
    if total == 0 {
        0
    } else {
        (added * 100) / total
    }
}

/// `count (percent%)`.
pub open spec fn count_with_percent(added: nat, total: nat) -> Seq<char> {
    decimal_of(added) + " ("@ + decimal_of(added_percent(added, total)) + "%)"@
}

/// The rows of the summary, as `(label, value)`, in three sections: the
/// source (with its description, input count, branch and commit, marked
/// dirty when the tree has uncommitted changes), then the Nixos modules and
/// the Home Manager modules with how many of them are added.
pub open spec fn spec_info_sections(f: Flake) -> Seq<Seq<(Seq<char>, Seq<char>)>> {
    let source_rows = seq![("Source"@, f.source@)] + match f.description {
        Some(d) => seq![("Description"@, d@)],
        None => Seq::empty(),
    } + seq![("Inputs"@, decimal_of(f.input_count as nat))] + match f.branch {
        Some(b) => seq![("Branch"@, b@)],
        None => Seq::empty(),
    } + match f.commit {
        Some(c) => seq![
            (
                "Commit"@,
                if f.dirty {
                    c@ + " (dirty)"@
                } else {
                    c@
                },
            ),
        ],
        None => Seq::empty(),
    };
    let nixos = f.nixos_modules@;
    let home = f.home_modules@;
    seq![
        source_rows,
        seq![
            ("Nixos Modules"@, decimal_of(nixos.len())),
            ("Added Nixos Modules"@, count_with_percent(added_count(nixos), nixos.len())),
        ],
        seq![
            ("Home Manager Modules"@, decimal_of(home.len())),
            ("Added Home Manager Modules"@, count_with_percent(added_count(home), home.len())),
        ],
    ]
}

/// A row of the summary as its views.
pub open spec fn row_view(r: (String, String)) -> (Seq<char>, Seq<char>) {
    (r.0@, r.1@)
}

/// Sections of rows as their views.
pub open spec fn sections_view(s: Seq<Vec<(String, String)>>) -> Seq<Seq<(Seq<char>, Seq<char>)>> {
    s.map_values(|rows: Vec<(String, String)>| rows_view(rows@))
}

proof fn lemma_added_count_bound(ms: Seq<Module>)
    ensures
        added_count(ms) <= ms.len(),
    decreases ms.len(),
{
    if ms.len() > 0 {
        lemma_added_count_bound(ms.drop_last());
    }
}

/// Counts the added modules of a list.
fn count_added(ms: &Vec<Module>) -> (r: usize)
    ensures
        r == added_count(ms@),
{
    let mut r: usize = 0;
    let mut i: usize = 0;
    while i < ms.len()
        invariant
            i <= ms@.len(),
            r == added_count(ms@.take(i as int)),
            r <= i,
        decreases ms@.len() - i,
    {
        assert(ms@.take(i + 1).drop_last() =~= ms@.take(i as int));
        if ms[i].added {
            r = r + 1;
        }
        i = i + 1;
    }
    assert(ms@.take(ms@.len() as int) =~= ms@);
    r
}

/// `count (percent%)` for `added` of `total` modules.
fn count_with_percent_string(added: usize, total: usize) -> (r: String)
    requires
        added <= total,
    ensures
        r@ == count_with_percent(added as nat, total as nat),
{
    let percent: usize = if total == 0 {
        0
    } else {
        let a = added as u128;
        let t = total as u128;
        assert(a * 100 <= u128::MAX) by (nonlinear_arith)
            requires
                a <= u64::MAX,
        ;
        let m = a * 100;
        let p = m / t;
        assert(p <= 100) by (nonlinear_arith)
            requires
                m == a * 100,
                p == m / t,
                a <= t,
                t > 0,
        ;
        p as usize
    };
    let mut r = decimal_string(added);
    r.append(" (");
    r.append(decimal_string(percent).as_str());
    r.append("%)");
    r
}

/// A summary row.
fn row(label: &str, value: String) -> (r: (String, String))
    ensures
        row_view(r) == (label@, value@),
{
    (label.to_owned(), value)
}

/// The views of a list of rows.
pub open spec fn rows_view(rows: Seq<(String, String)>) -> Seq<(Seq<char>, Seq<char>)> {
    rows.map_values(|r: (String, String)| row_view(r))
}

/// Appends a row.
fn push_row(rows: &mut Vec<(String, String)>, label: &str, value: String)
    ensures
        rows_view(final(rows)@) == rows_view(old(rows)@).push((label@, value@)),
{
    let ghost before = rows_view(rows@);
    rows.push(row(label, value));
    assert(rows_view(rows@) =~= before.push((label@, value@)));
}

/// Builds the summary of the source configuration.
pub fn info_sections(flake: &Flake) -> (r: Vec<Vec<(String, String)>>)
    ensures
        sections_view(r@) == spec_info_sections(*flake),
{
    let ghost f = *flake;
    let mut source_rows: Vec<(String, String)> = Vec::new();
    assert(rows_view(source_rows@) =~= Seq::empty());
    push_row(&mut source_rows, "Source", flake.source.clone());
    let ghost a = seq![("Source"@, f.source@)];
    let ghost b = a + match f.description {
        Some(d) => seq![("Description"@, d@)],
        None => Seq::<(Seq<char>, Seq<char>)>::empty(),
    };
    match &flake.description {
        Some(d) => push_row(&mut source_rows, "Description", d.clone()),
        None => {},
    }
    assert(rows_view(source_rows@) =~= b);
    push_row(&mut source_rows, "Inputs", decimal_string(flake.input_count));
    let ghost c = b + seq![("Inputs"@, decimal_of(f.input_count as nat))];
    let ghost d = c + match f.branch {
        Some(x) => seq![("Branch"@, x@)],
        None => Seq::<(Seq<char>, Seq<char>)>::empty(),
    };
    match &flake.branch {
        Some(x) => push_row(&mut source_rows, "Branch", x.clone()),
        None => {},
    }
    assert(rows_view(source_rows@) =~= d);
    let ghost e = d + match f.commit {
        Some(x) => seq![
            (
                "Commit"@,
                if f.dirty {
                    x@ + " (dirty)"@
                } else {
                    x@
                },
            ),
        ],
        None => Seq::<(Seq<char>, Seq<char>)>::empty(),
    };
    match &flake.commit {
        Some(x) => {
            let mut value = x.clone();
            if flake.dirty {
                value.append(" (dirty)");
            }
            push_row(&mut source_rows, "Commit", value);
        },
        None => {},
    }
    assert(rows_view(source_rows@) =~= e);
    proof {
        lemma_added_count_bound(flake.nixos_modules@);
        lemma_added_count_bound(flake.home_modules@);
    }
    let nixos_added = count_added(&flake.nixos_modules);
    let home_added = count_added(&flake.home_modules);
    let mut nixos_rows: Vec<(String, String)> = Vec::new();
    assert(rows_view(nixos_rows@) =~= Seq::empty());
    push_row(&mut nixos_rows, "Nixos Modules", decimal_string(flake.nixos_modules.len()));
    push_row(
        &mut nixos_rows,
        "Added Nixos Modules",
        count_with_percent_string(nixos_added, flake.nixos_modules.len()),
    );
    let mut home_rows: Vec<(String, String)> = Vec::new();
    assert(rows_view(home_rows@) =~= Seq::empty());
    push_row(&mut home_rows, "Home Manager Modules", decimal_string(flake.home_modules.len()));
    push_row(
        &mut home_rows,
        "Added Home Manager Modules",
        count_with_percent_string(home_added, flake.home_modules.len()),
    );
    let ghost nv = rows_view(nixos_rows@);
    let ghost hv = rows_view(home_rows@);
    assert(e == spec_info_sections(f)[0]);
    assert(nv =~= spec_info_sections(f)[1]);
    assert(hv =~= spec_info_sections(f)[2]);
    let mut r: Vec<Vec<(String, String)>> = Vec::new();
    r.push(source_rows);
    r.push(nixos_rows);
    r.push(home_rows);
    assert(sections_view(r@) =~= seq![
        rows_view(r@[0]@),
        rows_view(r@[1]@),
        rows_view(r@[2]@),
    ]);
    assert(sections_view(r@) =~= spec_info_sections(*flake));
    r
}

} // verus!
