use vstd::prelude::*;

verus! {

/// What the uuid crate reads from a text: the 128-bit value of the
/// identifier it spells, or nothing where the text is not one.
pub uninterp spec fn uuid_of_text(s: Seq<char>) -> Option<u128>;

/// Relies on uuid::Uuid::parse_str, read back as a number by
/// uuid::Uuid::as_u128, and on the text of uuid::Error for a refusal: the
/// outcome depends on the text alone, and an empty text is no identifier
/// (the parser accepts only lengths of 32 and more).
#[verifier::external_body]
pub(crate) fn parse_uuid(s: &str) -> (r: Result<u128, String>)
    ensures
        r matches Ok(v) ==> uuid_of_text(s@) == Some(v),
        r is Err <==> uuid_of_text(s@) is None,
        s@.len() == 0 ==> r is Err,
{
    uuid::Uuid::parse_str(s).map(|u| u.as_u128()).map_err(|e| e.to_string())
}

/// Relies on uuid::Uuid::new_v4, read back as a number by
/// uuid::Uuid::as_u128: a random identifier, of which nothing is promised.
#[verifier::external_body]
pub(crate) fn fresh_uuid() -> (r: u128) {
    uuid::Uuid::new_v4().as_u128()
}

/// The identifiers spelled by `texts`, in order; nothing where one of them
/// is no identifier.
pub fn parse_ids(texts: &Vec<String>) -> (r: Option<Vec<u128>>)
    ensures
        r is Some <==> forall|i: int| 0 <= i < texts@.len() ==> uuid_of_text(#[trigger] texts@[i]@) is Some,
        r matches Some(v) ==> v@.len() == texts@.len() && forall|i: int|
            0 <= i < texts@.len() ==> uuid_of_text(#[trigger] texts@[i]@) == Some(v@[i]),
{
    let mut v: Vec<u128> = Vec::new();
    let mut i: usize = 0;
    while i < texts.len()
        invariant
            0 <= i <= texts.len(),
            v@.len() == i,
            forall|j: int| 0 <= j < i ==> uuid_of_text(#[trigger] texts@[j]@) == Some(v@[j]),
        decreases texts.len() - i,
    {
        match parse_uuid(texts[i].as_str()) {
            Ok(x) => v.push(x),
            Err(_) => { return None; },
        }
        i = i + 1;
    }
    Some(v)
}

} // verus!
