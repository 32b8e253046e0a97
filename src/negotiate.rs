use vstd::prelude::*;

verus! {

/// The body formats that responses can take.
#[derive(Clone, Copy, Debug, PartialEq, Eq, Structural)]
pub enum ContentType {
    Json,
    Cbor,
}

/// Why no body format could be chosen.
#[derive(Clone, Copy, Debug, PartialEq, Eq, Structural)]
pub enum NegotiationError {
    /// The client accepts neither JSON nor CBOR (HTTP 406).
    NotAcceptable,
}

/// What an `Accept` header lists: the media types (`type/subtype`, without
/// parameters) in order of preference, and whether a `*/*` range is present;
/// `None` where the header does not parse.
pub uninterp spec fn accept_preferences(header: Seq<char>) -> Option<(Seq<Seq<char>>, bool)>;

/// Relies on accept-header's `Accept::from_str`: the media types it lists,
/// most preferred first, and whether it holds a wildcard range. Depends on
/// the header alone.
#[verifier::external_body]
fn parse_accept(header: &str) -> (r: Option<(Vec<String>, bool)>)
    ensures
        match r {
            Some((types, wildcard)) => accept_preferences(header@) == Some((types.deep_view(), wildcard)),
            None => accept_preferences(header@) is None,
        },
{
    let accept = header.parse::<accept_header::Accept>().ok()?;
    let types = accept.types.iter().map(|t| t.mime.essence_str().to_string()).collect();
    Some((types, accept.wildcard.is_some()))
}

pub open spec fn content_type_of(media_type: Seq<char>) -> Option<ContentType> {
    if media_type == "application/json"@ {
        Some(ContentType::Json)
    } else if media_type == "application/cbor"@ {
        Some(ContentType::Cbor)
    } else {
        None
    }
}

/// The first of the listed media types that is JSON or CBOR.
pub open spec fn first_supported(types: Seq<Seq<char>>) -> Option<ContentType>
    decreases types.len(),
{
    if types.len() == 0 {
        None
    } else {
        match content_type_of(types[0]) {
            Some(c) => Some(c),
            None => first_supported(types.drop_first()),
        }
    }
}

/// The format chosen from a parsed `Accept` header: the first listed that
/// the server offers, else JSON under a wildcard, else none.
pub open spec fn chosen(types: Seq<Seq<char>>, wildcard: bool) -> Option<ContentType> {
    match first_supported(types) {
        Some(c) => Some(c),
        None => if wildcard {
            Some(ContentType::Json)
        } else {
            None
        },
    }
}

/// The format for a request's `Accept` header: JSON without one.
pub open spec fn negotiated(accept: Option<Seq<char>>) -> Option<ContentType> {
    match accept {
        None => Some(ContentType::Json),
        Some(h) => match accept_preferences(h) {
            Some((types, wildcard)) => chosen(types, wildcard),
            None => None,
        },
    }
}

fn media_type_content(media_type: &String) -> (r: Option<ContentType>)
    ensures
        r == content_type_of(media_type@),
{
    let json = String::from_str("application/json");
    let cbor = String::from_str("application/cbor");
    if *media_type == json {
        Some(ContentType::Json)
    } else if *media_type == cbor {
        Some(ContentType::Cbor)
    } else {
        None
    }
}

/// Chooses a format from the media types of an `Accept` header, most
/// preferred first, and whether it holds a wildcard.
pub fn choose_content_type(types: &Vec<String>, wildcard: bool) -> (r: Result<ContentType, NegotiationError>)
    ensures
        match chosen(types.deep_view(), wildcard) {
            Some(c) => r == Ok::<ContentType, NegotiationError>(c),
            None => r == Err::<ContentType, NegotiationError>(NegotiationError::NotAcceptable),
        },
{
    let ghost tv = types.deep_view();
    assert(tv.skip(0) =~= tv);
    let mut i: usize = 0;
    while i < types.len()
        invariant
            i <= types.len(),
            tv == types.deep_view(),
            first_supported(tv) == first_supported(tv.skip(i as int)),
        decreases types.len() - i,
    {
        assert(tv.skip(i as int)[0] == types@[i as int]@);
        assert(tv.skip(i as int).drop_first() =~= tv.skip(i + 1));
        match media_type_content(&types[i]) {
            Some(c) => return Ok(c),
            None => {},
        }
        i = i + 1;
    }
    assert(tv.skip(i as int).len() == 0);
    if wildcard {
        Ok(ContentType::Json)
    } else {
        Err(NegotiationError::NotAcceptable)
    }
}

/// Chooses the response format for a request's `Accept` header: JSON where
/// there is none; a header that does not parse accepts neither format.
pub fn negotiate(accept: Option<&str>) -> (r: Result<ContentType, NegotiationError>)
    ensures
        match negotiated(
            match accept {
                Some(h) => Some(h@),
                None => None,
            },
        ) {
            Some(c) => r == Ok::<ContentType, NegotiationError>(c),
            None => r == Err::<ContentType, NegotiationError>(NegotiationError::NotAcceptable),
        },
{
    match accept {
        None => Ok(ContentType::Json),
        Some(h) => match parse_accept(h) {
            Some((types, wildcard)) => choose_content_type(&types, wildcard),
            None => Err(NegotiationError::NotAcceptable),
        },
    }
}

} // verus!
