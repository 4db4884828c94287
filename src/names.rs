//! Ordered lists of names and the names of one list that another holds.
use vstd::prelude::*;
use crate::ordered::{entries, insert_name, insert_spec, new_name_map};
use crate::report::views;
use indexmap::IndexMap;

verus! {

/// The names of `a`, in order, whose presence in `b` is `present`.
pub open spec fn select(a: Seq<Seq<char>>, b: Seq<Seq<char>>, present: bool) -> Seq<Seq<char>> {
    a.filter(|x: Seq<char>| b.contains(x) == present)
}

/// Tests whether `name` is among `names`.
pub fn contains_name(names: &Vec<String>, name: &String) -> (r: bool)
    ensures
        r == views(names@).contains(name@),
{
    let mut i: usize = 0;
    while i < names.len()
        invariant
            i <= names.len(),
            forall|j: int| 0 <= j < i ==> views(names@)[j] != name@,
        decreases names.len() - i,
    {
        if names[i] == *name {
            assert(views(names@)[i as int] == name@);
            return true;
        }
        i = i + 1;
    }
    proof {
        if views(names@).contains(name@) {
            let j = choose|j: int| 0 <= j < views(names@).len() && views(names@)[j] == name@;
            assert(j < i);
        }
    }
    false
}

/// The names of `a`, in order, whose presence in `b` is `present`.
pub fn select_names(a: &Vec<String>, b: &Vec<String>, present: bool) -> (r: Vec<String>)
    ensures
        views(r@) == select(views(a@), views(b@), present),
{
    let ghost pred = |x: Seq<char>| views(b@).contains(x) == present;
    let mut out: Vec<String> = Vec::new();
    let mut i: usize = 0;
    while i < a.len()
        invariant
            i <= a.len(),
            pred == (|x: Seq<char>| views(b@).contains(x) == present),
            views(out@) == views(a@).take(i as int).filter(pred),
        decreases a.len() - i,
    {
        let found = contains_name(b, &a[i]);
        proof {
            assert(views(a@).take(i + 1) =~= views(a@).take(i as int).push(a@[i as int]@));
            views(a@).take(i as int).lemma_filter_push(a@[i as int]@, pred);
        }
        if found == present {
            let ghost before = out@;
            out.push(a[i].clone());
            assert(views(out@) =~= views(before).push(a@[i as int]@));
        }
        i = i + 1;
    }
    assert(views(a@).take(a@.len() as int) =~= views(a@));
    out
}

/// The first position of `name` among `names`, if it is there.
pub fn position_of(names: &Vec<String>, name: &String) -> (r: Option<usize>)
    ensures
        match r {
            Some(j) => j < names@.len() && names@[j as int]@ == name@ && forall|k: int|
                0 <= k < j ==> names@[k]@ != name@,
            None => forall|k: int| 0 <= k < names@.len() ==> names@[k]@ != name@,
        },
{
    let mut j: usize = 0;
    while j < names.len()
        invariant
            j <= names.len(),
            forall|k: int| 0 <= k < j ==> names@[k]@ != name@,
        decreases names.len() - j,
    {
        if names[j] == *name {
            return Some(j);
        }
        j = j + 1;
    }
    None
}

/// The first position of `x` in `s`, or -1.
pub open spec fn first_index(s: Seq<Seq<char>>, x: Seq<char>) -> int
    decreases s.len(),
{
    if s.len() == 0 {
        -1
    } else if s[0] == x {
        0
    } else {
        let r = first_index(s.skip(1), x);
        if r < 0 {
            -1
        } else {
            r + 1
        }
    }
}

proof fn lemma_first_index(s: Seq<Seq<char>>, x: Seq<char>, j: int)
    requires
        0 <= j < s.len(),
        s[j] == x,
        forall|k: int| 0 <= k < j ==> s[k] != x,
    ensures
        first_index(s, x) == j,
    decreases j,
{
    if j > 0 {
        assert forall|k: int| 0 <= k < j - 1 implies s.skip(1)[k] != x by {
            assert(s.skip(1)[k] == s[k + 1]);
        }
        lemma_first_index(s.skip(1), x, j - 1);
    }
}

/// The ordered map built from the first `n` base names: each name, in base
/// order, with its first position among the head names.
pub open spec fn pairs_prefix(base: Seq<Seq<char>>, head: Seq<Seq<char>>, n: nat) -> Seq<(Seq<char>, usize)>
    decreases n,
{
    if n == 0 {
        Seq::empty()
    } else {
        insert_spec(
            pairs_prefix(base, head, (n - 1) as nat),
            base[n - 1],
            first_index(head, base[n - 1]) as usize,
        )
    }
}

/// Pairs each base name, in base order, with its position among the head
/// names. Fails with the base names missing from head, or else with the head
/// names missing from base: either means some asset is unaccounted for.
pub fn pair_names(base: &Vec<String>, head: &Vec<String>) -> (r: Result<
    IndexMap<String, usize, ahash::RandomState>,
    PairingError,
>)
    ensures
        match r {
            Ok(m) => {
                &&& select(views(base@), views(head@), false).len() == 0
                &&& select(views(head@), views(base@), false).len() == 0
                &&& entries(m) == pairs_prefix(views(base@), views(head@), base@.len())
            },
            Err(PairingError::MissingInHead(names)) => {
                &&& select(views(base@), views(head@), false).len() > 0
                &&& views(names@) == select(views(base@), views(head@), false)
            },
            Err(PairingError::MissingInBase(names)) => {
                &&& select(views(base@), views(head@), false).len() == 0
                &&& select(views(head@), views(base@), false).len() > 0
                &&& views(names@) == select(views(head@), views(base@), false)
            },
        },
{
    let missing_head = select_names(base, head, false);
    if missing_head.len() > 0 {
        return Err(PairingError::MissingInHead(missing_head));
    }
    let missing_base = select_names(head, base, false);
    if missing_base.len() > 0 {
        return Err(PairingError::MissingInBase(missing_base));
    }
    let mut pairs = new_name_map();
    let mut i: usize = 0;
    while i < base.len()
        invariant
            i <= base.len(),
            select(views(base@), views(head@), false).len() == 0,
            entries(pairs) == pairs_prefix(views(base@), views(head@), i as nat),
        decreases base.len() - i,
    {
        proof {
            broadcast use vstd::seq_lib::group_filter_ensures;

            let p = |x: Seq<char>| views(head@).contains(x) == false;
            if !views(head@).contains(base@[i as int]@) {
                views(base@).lemma_filter_contains(p, i as int);
            }
        }
        let j = match position_of(head, &base[i]) {
            Some(j) => j,
            None => {
                // cannot happen: every base name was found among the head names
                proof {
                    let k = choose|k: int| 0 <= k < views(head@).len() && views(head@)[k] == base@[i as int]@;
                    assert(head@[k]@ == base@[i as int]@);
                }
                0
            },
        };
        proof {
            lemma_first_index(views(head@), base@[i as int]@, j as int);
        }
        insert_name(&mut pairs, base[i].clone(), j);
        i = i + 1;
    }
    Ok(pairs)
}

/// Why two lists of asset names could not be paired.
pub enum PairingError {
    /// Names of the base list that the head list lacks.
    MissingInHead(Vec<String>),
    /// Names of the head list that the base list lacks.
    MissingInBase(Vec<String>),
}

} // verus!
