//! The cross-origin policy of the servers.

use vstd::prelude::*;

verus! {

/// The servers' cross-origin policy: every origin, method and header is let
/// in.
#[derive(Clone, Copy, Debug)]
pub struct Cors;

/// The headers that the policy adds to every answer, as mathematical values.
pub open spec fn cors_headers() -> Seq<(Seq<char>, Seq<char>)> {
    seq![
        ("Access-Control-Allow-Origin"@, "*"@),
        ("Access-Control-Allow-Methods"@, "POST, PATCH, PUT, DELETE, HEAD, OPTIONS, GET"@),
        ("Access-Control-Allow-Headers"@, "*"@),
        ("Access-Control-Allow-Credentials"@, "true"@),
    ]
}

impl Cors {
    /// The name under which the policy is attached to a server.
    pub fn info(&self) -> (name: String)
        ensures
            name@ == "Cross-Origin-Resource-Sharing Fairing"@,
    {
        String::from_str("Cross-Origin-Resource-Sharing Fairing")
    }

    /// The headers that the policy adds to every answer, in order.
    pub fn on_response(&self) -> (headers: Vec<(String, String)>)
        ensures
            headers@.len() == cors_headers().len(),
            forall|i: int|
                0 <= i < headers@.len() ==> (#[trigger] headers@[i]).0@ == cors_headers()[i].0
                    && headers@[i].1@ == cors_headers()[i].1,
    {
        let mut headers: Vec<(String, String)> = Vec::new();
        headers.push((String::from_str("Access-Control-Allow-Origin"), String::from_str("*")));
        headers.push(
            (
                String::from_str("Access-Control-Allow-Methods"),
                String::from_str("POST, PATCH, PUT, DELETE, HEAD, OPTIONS, GET"),
            ),
        );
        headers.push((String::from_str("Access-Control-Allow-Headers"), String::from_str("*")));
        headers.push(
            (String::from_str("Access-Control-Allow-Credentials"), String::from_str("true")),
        );
        headers
    }
}

/// The answer to a pre-flight request: nothing but the headers of the
/// policy, which the server adds to every answer.
pub fn all_options() {
}

} // verus!
