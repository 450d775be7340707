//! The names of the report and of its signature.
use crate::artifact;
use crate::clock::LocalTime;
use crate::signature;
use crate::text;
use vstd::prelude::*;

verus! {

/// The highest number that a report's name can carry.
pub const LAST_NUMBER: u32 = 2_147_483_646;

/// The name of a report made at `time`, as written in file names, with the number
/// `n`: the first one carries none.
pub open spec fn candidate(time: Seq<char>, n: nat) -> Seq<char> {
    if n == 0 {
        "collection_report_"@ + time + ".txt"@
    } else {
        "collection_report_"@ + time + "-"@ + text::decimal(n) + ".txt"@
    }
}

/// The name of a report made at `time` with the number `n`.
pub fn report_candidate(time: &str, n: u32) -> (r: String)
    ensures
        r@ == candidate(time@, n as nat),
{
    let mut name = "collection_report_".to_owned();
    name.append(time);
    if n > 0 {
        name.append("-");
        text::push_decimal(&mut name, n as u64);
    }
    name.append(".txt");
    name
}

/// `is_taken` may answer `answer` when asked for the candidate with the number `n`.
pub open spec fn may_answer<F: Fn(&String) -> bool>(
    is_taken: F,
    time: Seq<char>,
    n: nat,
    answer: bool,
) -> bool {
    exists|name: String|
        {
            &&& name@ == candidate(time, n)
            &&& #[trigger] call_ensures(is_taken, (&name,), answer)
        }
}

/// The candidate with the number `n` is the next to ask for: all the candidates before
/// it are taken.
pub open spec fn is_next<F: Fn(&String) -> bool>(is_taken: F, time: Seq<char>, n: nat) -> bool {
    &&& n <= LAST_NUMBER
    &&& forall|k: nat| k < n ==> #[trigger] may_answer(is_taken, time, k, true)
}

/// `name` is a candidate that is the next to ask for.
pub open spec fn is_next_name<F: Fn(&String) -> bool>(
    is_taken: F,
    time: Seq<char>,
    name: Seq<char>,
) -> bool {
    exists|n: nat| #[trigger] is_next(is_taken, time, n) && name == candidate(time, n)
}

/// A report gets the candidate with the number `n`: it is free, and all the candidates
/// before it are taken.
pub open spec fn is_first_free<F: Fn(&String) -> bool>(
    is_taken: F,
    time: Seq<char>,
    n: nat,
) -> bool {
    &&& is_next(is_taken, time, n)
    &&& may_answer(is_taken, time, n, false)
}

/// The name of a report made at `now`: the first candidate that is free. `is_taken` is
/// asked for the candidates in their order, up to the first that is free. There is
/// none if all the candidates up to the last number are taken.
pub fn generate_report_name<F: Fn(&String) -> bool>(now: &LocalTime, is_taken: F) -> (r: Option<
    String,
>)
    requires
        forall|name: &String|
            is_next_name(is_taken, now.file_text(), name@) ==> #[trigger] call_requires(
                is_taken,
                (name,),
            ),
    ensures
        match r {
            Some(name) => exists|n: nat|
                name@ == candidate(now.file_text(), n) && #[trigger] is_first_free(
                    is_taken,
                    now.file_text(),
                    n,
                ),
            None => forall|k: nat|
                k <= LAST_NUMBER ==> #[trigger] may_answer(is_taken, now.file_text(), k, true),
        },
        r matches Some(name) ==> exists|asked: &String| #[trigger]
            call_ensures(is_taken, (asked,), false) && asked@ == name@,
        r matches Some(name) ==> exists|taken: Seq<String>|
            {
                &&& name@ == #[trigger] candidate(now.file_text(), taken.len())
                &&& forall|k: int|
                    0 <= k < taken.len() ==> {
                        &&& call_ensures(is_taken, (&#[trigger] taken[k],), true)
                        &&& taken[k]@ == candidate(now.file_text(), k as nat)
                    }
            },
{
    let time = now.for_file_name();
    let mut n: u32 = 0;
    let ghost mut taken_names: Seq<String> = Seq::empty();
    loop
        invariant
            taken_names.len() == n,
            forall|k: int|
                0 <= k < taken_names.len() ==> {
                    &&& call_ensures(is_taken, (&#[trigger] taken_names[k],), true)
                    &&& taken_names[k]@ == candidate(time@, k as nat)
                },
            time@ == now.file_text(),
            n <= LAST_NUMBER,
            forall|name: &String|
                is_next_name(is_taken, now.file_text(), name@) ==> #[trigger] call_requires(
                    is_taken,
                    (name,),
                ),
            forall|k: nat| k < n ==> #[trigger] may_answer(is_taken, time@, k, true),
        decreases LAST_NUMBER - n,
    {
        let name = report_candidate(time.as_str(), n);
        proof {
            assert(is_next(is_taken, time@, n as nat));
            assert(is_next_name(is_taken, time@, name@));
        }
        let taken = is_taken(&name);
        proof {
            assert(may_answer(is_taken, time@, n as nat, taken));
        }
        if !taken {
            proof {
                assert(is_first_free(is_taken, time@, n as nat));
                assert(name@ == candidate(now.file_text(), taken_names.len()));
            }
            return Some(name);
        }
        if n == LAST_NUMBER {
            return None;
        }
        proof {
            taken_names = taken_names.push(name);
        }
        n = n + 1;
    }
}

/// The name of the signature of the report `report_name`.
pub open spec fn signature_of(report_name: Seq<char>) -> Seq<char> {
    report_name + ".asc"@
}

/// The name of the signature of the report `report_name`.
pub fn signature_name(report_name: &str) -> (r: String)
    ensures
        r@ == signature_of(report_name@),
{
    let mut name = report_name.to_owned();
    name.append(".asc");
    name
}

// ---------------------------------------------------------------------------
// Laws
// ---------------------------------------------------------------------------
/// Different numbers give different names.
pub proof fn law_candidates_differ(time: Seq<char>, a: nat, b: nat)
    requires
        a != b,
    ensures
        candidate(time, a) != candidate(time, b),
{
    reveal_strlit("collection_report_");
    reveal_strlit("-");
    reveal_strlit(".txt");
    text::lemma_decimal_len(a);
    text::lemma_decimal_len(b);
    let x = candidate(time, a);
    let y = candidate(time, b);
    if x == y {
        assert(x.len() == y.len());
        let start = ("collection_report_"@ + time + "-"@).len() as int;
        if a > 0 && b > 0 {
            assert(x.subrange(start, x.len() - 4) =~= text::decimal(a));
            assert(y.subrange(start, y.len() - 4) =~= text::decimal(b));
            text::law_decimal_injective(a, b);
        }
    }
}

/// The signature of a report is recognised as one, and as that of the report.
pub proof fn law_signature_of_report(report_name: Seq<char>)
    requires
        artifact::is_plain_name(report_name),
    ensures
        artifact::kind_of_path(signature_of(report_name)) == Some(
            artifact::ArtifactKind::DetachedSignature,
        ),
        signature::signed_name(signature_of(report_name)) == report_name,
        signature_of(report_name) != report_name,
{
    let name = signature_of(report_name);
    reveal_strlit(".asc");
    reveal_strlit("");
    reveal_strlit(".");
    reveal_strlit("..");
    assert(text::ascii_lowercase(".asc"@) =~= ".asc"@);
    assert(!name.contains('/')) by {
        if name.contains('/') {
            let k = choose|k: int| 0 <= k < name.len() && name[k] == '/';
            assert(k < report_name.len());
            assert(report_name.contains(report_name[k]));
        }
    }
    assert(artifact::is_plain_name(name));
    artifact::law_kind_depends_on_name_alone(Seq::empty(), name);
    artifact::law_signature_extension_detected(report_name, ".asc"@);
    signature::law_signature_signs_its_namesake(Seq::empty(), report_name, ".asc"@);
    assert(name.len() == report_name.len() + 4);
}

/// A report is named after its moment; from the second on, the name carries the
/// number, in digits.
pub proof fn law_candidate_names(time: Seq<char>, n: nat)
    ensures
        candidate(time, 0) == "collection_report_"@ + time + ".txt"@,
        n > 0 ==> candidate(time, n) == "collection_report_"@ + time + "-"@ + text::decimal(n)
            + ".txt"@,
        signature_of(candidate(time, n)) == candidate(time, n) + ".asc"@,
        LAST_NUMBER == 2_147_483_646,
{
}

} // verus!
