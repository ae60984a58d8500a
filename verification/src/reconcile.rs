//! The field/capture reconciler: at route-definition time the set of
//! parameter names captured by the template must equal the set of declared
//! path-field names, and a mismatch reports both directions.

use vstd::prelude::*;

verus! {

/// A definition-time mismatch between the parameter names captured by a
/// template and the path fields declared for the route shape.
#[derive(Debug)]
pub struct FieldSetMismatch {
    /// Declared fields that the template's captures do not mention.
    pub missing_from_path: Vec<String>,
    /// Template captures that the declared fields do not mention.
    pub missing_from_struct: Vec<String>,
}

/// The names of `from`, in order, that `others` does not contain.
pub open spec fn missing_names(from: Seq<Seq<char>>, others: Seq<Seq<char>>) -> Seq<Seq<char>> {
    from.filter(|n: Seq<char>| !others.contains(n))
}

/// Two name lists mention exactly the same names.
pub open spec fn same_name_set(a: Seq<Seq<char>>, b: Seq<Seq<char>>) -> bool {
    forall|n: Seq<char>| a.contains(n) <==> b.contains(n)
}

/// Decides whether `names` holds `name`.
fn contains_name(names: &Vec<String>, name: &String) -> (r: bool)
    ensures
        r == names.deep_view().contains(name@),
{
    let mut i: usize = 0;
    while i < names.len()
        invariant
            i <= names@.len(),
            forall|j: int| 0 <= j < i ==> #[trigger] names.deep_view()[j] != name@,
        decreases names@.len() - i,
    {
        if names[i].eq(name) {
            proof {
                assert(names.deep_view()[i as int] == name@);
            }
            return true;
        }
        i = i + 1;
    }
    proof {
        assert forall|j: int| 0 <= j < names.deep_view().len() implies #[trigger] names.deep_view()[j]
            != name@ by {}
    }
    false
}

proof fn lemma_missing_names_empty(a: Seq<Seq<char>>, b: Seq<Seq<char>>)
    ensures
        (missing_names(a, b).len() == 0) <==> (forall|i: int|
            0 <= i < a.len() ==> b.contains(#[trigger] a[i])),
    decreases a.len(),
{
    reveal_with_fuel(Seq::filter, 2);
    if a.len() == 0 {
    } else {
        lemma_missing_names_empty(a.drop_last(), b);
        assert(a.last() == a[a.len() - 1]);
        assert forall|i: int| 0 <= i < a.len() - 1 implies a.drop_last()[i] == #[trigger] a[i] by {}
    }
}

/// Gathers, in declared order, the names of `from` that `others` does not
/// contain.
fn names_not_in(from: &Vec<String>, others: &Vec<String>) -> (r: Vec<String>)
    ensures
        r.deep_view() == missing_names(from.deep_view(), others.deep_view()),
{
    let ghost fv = from.deep_view();
    let mut out: Vec<String> = Vec::new();
    let mut i: usize = 0;
    proof {
        reveal_with_fuel(Seq::filter, 2);
        assert(fv.take(0) =~= Seq::<Seq<char>>::empty());
        assert(out.deep_view() =~= missing_names(fv.take(0), others.deep_view()));
    }
    while i < from.len()
        invariant
            i <= from@.len(),
            fv == from.deep_view(),
            fv.len() == from@.len(),
            out.deep_view() == missing_names(fv.take(i as int), others.deep_view()),
        decreases from@.len() - i,
    {
        let ghost old_out = out.deep_view();
        let absent = !contains_name(others, &from[i]);
        if absent {
            out.push(from[i].clone());
        }
        proof {
            reveal_with_fuel(Seq::filter, 2);
            assert(fv.take(i as int + 1).drop_last() =~= fv.take(i as int));
            assert(fv.take(i as int + 1).last() == fv[i as int]);
            if absent {
                assert(out.deep_view() =~= old_out.push(fv[i as int]));
            }
            assert(out.deep_view() =~= missing_names(fv.take(i as int + 1), others.deep_view()));
        }
        i = i + 1;
    }
    proof {
        assert(fv.take(fv.len() as int) =~= fv);
    }
    out
}

/// Compares the capture names of a compiled template against the declared
/// path-field names of a route shape. The two must mention exactly the same
/// names; otherwise both directions of the mismatch are reported.
pub fn reconcile_fields(capture_names: &Vec<String>, field_names: &Vec<String>) -> (r: Result<
    (),
    FieldSetMismatch,
>)
    ensures
        (r is Ok) <==> same_name_set(capture_names.deep_view(), field_names.deep_view()),
        r matches Err(m) ==> (m.missing_from_path.deep_view() == missing_names(
            field_names.deep_view(),
            capture_names.deep_view(),
        ) && m.missing_from_struct.deep_view() == missing_names(
            capture_names.deep_view(),
            field_names.deep_view(),
        )),
{
    let ghost cv = capture_names.deep_view();
    let ghost dv = field_names.deep_view();
    let missing_from_path = names_not_in(field_names, capture_names);
    let missing_from_struct = names_not_in(capture_names, field_names);
    proof {
        lemma_missing_names_empty(dv, cv);
        lemma_missing_names_empty(cv, dv);
        if same_name_set(cv, dv) {
            assert forall|i: int| 0 <= i < dv.len() implies cv.contains(#[trigger] dv[i]) by {
                assert(dv.contains(dv[i]));
            }
            assert forall|i: int| 0 <= i < cv.len() implies dv.contains(#[trigger] cv[i]) by {
                assert(cv.contains(cv[i]));
            }
        }
        if missing_names(dv, cv).len() == 0 && missing_names(cv, dv).len() == 0 {
            assert forall|n: Seq<char>| cv.contains(n) implies dv.contains(n) by {
                let w = choose|w: int| 0 <= w < cv.len() && cv[w] == n;
                assert(dv.contains(cv[w]));
            }
            assert forall|n: Seq<char>| dv.contains(n) implies cv.contains(n) by {
                let w = choose|w: int| 0 <= w < dv.len() && dv[w] == n;
                assert(cv.contains(dv[w]));
            }
            assert(same_name_set(cv, dv));
        }
    }
    if missing_from_path.len() == 0 && missing_from_struct.len() == 0 {
        Ok(())
    } else {
        Err(FieldSetMismatch { missing_from_path, missing_from_struct })
    }
}

} // verus!
