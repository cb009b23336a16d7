use vstd::prelude::*;
use vstd::string::*;
use crate::parcel::Parcel;
use crate::text::{int_decimal, i16_to_string};
use crate::content_discovery::{last_index_of, find_last_char, i16_of, parse_i16, lemma_last_index_of,
    lemma_int_decimal};

verus! {

/// The content server's pointer of a parcel: `<x>,<y>`.
pub open spec fn pointer_text(p: Parcel) -> Seq<char> {
    int_decimal(p.0 as int) + ","@ + int_decimal(p.1 as int)
}

/// The pointer of a parcel.
pub fn parcel_pointer(p: Parcel) -> (s: String)
    ensures
        s@ == pointer_text(p),
{
    let mut s = i16_to_string(p.0);
    s.append(",");
    let y = i16_to_string(p.1);
    s.append(y.as_str());
    s
}

/// The pointers a scene is deployed to: one per parcel, in order.
pub fn deploy_pointers(parcels: &Vec<Parcel>) -> (pointers: Vec<String>)
    ensures
        pointers@.len() == parcels@.len(),
        forall|i: int| 0 <= i < parcels@.len() ==> #[trigger] pointers@[i]@ == pointer_text(parcels@[i]),
{
    let mut pointers: Vec<String> = Vec::new();
    let mut i: usize = 0;
    while i < parcels.len()
        invariant
            i <= parcels@.len(),
            pointers@.len() == i,
            forall|k: int| 0 <= k < i ==> #[trigger] pointers@[k]@ == pointer_text(parcels@[k]),
        decreases parcels@.len() - i,
    {
        pointers.push(parcel_pointer(parcels[i]));
        i = i + 1;
    }
    pointers
}

/// The parcel a pointer names: two `i16` separated by the last `,`.
pub open spec fn pointer_parcel(s: Seq<char>) -> Option<Parcel> {
    let k = last_index_of(s, ',');
    if k < 0 {
        None
    } else {
        match (i16_of(s.subrange(0, k)), i16_of(s.subrange(k + 1, s.len() as int))) {
            (Some(x), Some(y)) => Some(Parcel(x, y)),
            _ => None,
        }
    }
}

/// The parcel a pointer names, if it names one.
pub fn parcel_from_pointer(s: &str) -> (p: Option<Parcel>)
    ensures
        p == pointer_parcel(s@),
{
    let n = s.unicode_len();
    proof {
        assert(s@.subrange(0, n as int) =~= s@);
    }
    match find_last_char(s, ',', n) {
        None => None,
        Some(k) => {
            let x = parse_i16(s.substring_char(0, k));
            let y = parse_i16(s.substring_char(k + 1, n));
            match (x, y) {
                (Some(x), Some(y)) => Some(Parcel(x, y)),
                _ => None,
            }
        },
    }
}

/// Reading the pointer of a parcel gives the parcel back.
pub proof fn lemma_pointer_round_trip(p: Parcel)
    ensures
        pointer_parcel(pointer_text(p)) == Some(p),
{
    reveal_strlit(",");
    let a = int_decimal(p.0 as int);
    let b = int_decimal(p.1 as int);
    let s = pointer_text(p);
    lemma_int_decimal(p.0 as int);
    lemma_int_decimal(p.1 as int);
    assert(s[a.len() as int] == ',');
    assert forall|m: int| a.len() < m < s.len() implies s[m] != ',' by {
        assert(s[m] == b[m - a.len() - 1]);
    }
    lemma_last_index_of(s, ',', a.len() as int);
    assert(s.subrange(0, a.len() as int) =~= a);
    assert(s.subrange(a.len() as int + 1, s.len() as int) =~= b);
}

/// How far a deployment from the previewer has gone; the keys, the
/// signatures and the files travel beside it.
#[derive(Debug, Clone, PartialEq, Eq)]
pub enum DeployState {
    Signed,
    FilesPrepared,
    Success,
    Error(String),
}

/// What the previewer starts next in a deployment.
#[derive(Debug, Clone, Copy, PartialEq, Eq, Structural)]
pub enum DeployAction {
    /// Ask the wallet for a signature of a fresh key.
    Sign,
    /// Gather the files of the scene.
    PrepareFiles,
    /// Sign the entity and upload it.
    Upload,
    /// Nothing more: the deployment is over.
    Finish,
}

/// The message shown and the step started when a step of a deployment
/// ends.
pub open spec fn deploy_step_of(state: DeployState) -> (Seq<char>, DeployAction) {
    match state {
        DeployState::Signed => ("Preparing files..."@, DeployAction::PrepareFiles),
        DeployState::FilesPrepared => ("Uploading files..."@, DeployAction::Upload),
        DeployState::Success => ("Scene deployed succesfully."@, DeployAction::Finish),
        DeployState::Error(err) => (err@, DeployAction::Finish),
    }
}

/// The message to show and the step to start once a step of a
/// deployment has ended.
pub fn handle_deploy_step(state: &DeployState) -> (r: (String, DeployAction))
    ensures
        r.0@ == deploy_step_of(*state).0,
        r.1 == deploy_step_of(*state).1,
{
    match state {
        DeployState::Signed => (String::from_str("Preparing files..."), DeployAction::PrepareFiles),
        DeployState::FilesPrepared => (String::from_str("Uploading files..."), DeployAction::Upload),
        DeployState::Success => (String::from_str("Scene deployed succesfully."), DeployAction::Finish),
        DeployState::Error(err) => (err.clone(), DeployAction::Finish),
    }
}

/// Control and P together start a deployment, after a signature.
pub fn deploy_input(p_just_pressed: bool, control_held: bool) -> (r: Option<(String, DeployAction)>)
    ensures
        p_just_pressed && control_held ==> (r matches Some((m, a)) && m@ == "Waiting for signature..."@
            && a == DeployAction::Sign),
        !(p_just_pressed && control_held) ==> r is None,
{
    if p_just_pressed && control_held {
        Some((String::from_str("Waiting for signature..."), DeployAction::Sign))
    } else {
        None
    }
}

/// The end of an upload: a success for the content server's status 200,
/// an error with its answer otherwise.
pub fn deploy_outcome(status: u16, answer: String) -> (state: DeployState)
    ensures
        status == 200 ==> state == DeployState::Success,
        status != 200 ==> (state matches DeployState::Error(e) && e@ == answer@),
{
    if status == 200 {
        DeployState::Success
    } else {
        DeployState::Error(answer)
    }
}

} // verus!
