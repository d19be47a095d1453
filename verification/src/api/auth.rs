//! Who may call the API: whoever has its token.

use vstd::prelude::*;
use vstd::utf8::*;

use crate::api::error::ApiError;
use crate::error::Error;
use crate::proxy::http::bearer_token;
use crate::text;

verus! {

/// The environment variable that holds the API token.
pub const API_TOKEN_ENV_VAR: &'static str = "TIKOVM_HOSTD_API_TOKEN";

/// The API token from the environment. Without one the daemon refuses to
/// start.
pub fn api_token(value: Option<&str>) -> (r: Result<String, Error>)
    ensures
        match r {
            Ok(token) => value is Some && value->0@.len() > 0 && token@ == value->0@,
            Err(e) => e == Error::MissingApiToken && (value is None || value->0@.len() == 0),
        },
{
    match value {
        Some(token) => if token.unicode_len() > 0 {
            Ok(token.to_owned())
        } else {
            Err(Error::MissingApiToken)
        },
        None => Err(Error::MissingApiToken),
    }
}

/// Compares what was presented with what is expected. It goes through all of
/// what was presented, whatever is expected and wherever they differ, so that
/// the time it takes tells neither the length nor the content of what is
/// expected.
pub fn constant_time_eq(a: &[u8], b: &[u8]) -> (same: bool)
    ensures
        same == (a@ == b@),
{
    let n: usize = a.len();
    let m: usize = b.len();
    let mut diff: usize = n ^ m;
    proof {
        assert((n ^ m) == 0 <==> n == m) by (bit_vector);
    }
    let mut i: usize = 0;
    while i < n
        invariant
            n == a@.len(),
            m == b@.len(),
            i <= n,
            diff == 0 ==> n == m && forall|j: int| 0 <= j < i ==> a@[j] == b@[j],
            a@ == b@ ==> diff == 0,
        decreases n - i,
    {
        let x: u8 = a[i];
        let y: u8 = if i < m {
            b[i]
        } else {
            0
        };
        let delta: usize = (x ^ y) as usize;
        proof {
            assert((x ^ y) == 0 <==> x == y) by (bit_vector);
            assert((diff | delta) == 0 <==> diff == 0 && delta == 0) by (bit_vector);
        }
        diff = diff | delta;
        i += 1;
    }
    proof {
        if diff == 0 {
            assert(a@ =~= b@);
        }
    }
    diff == 0
}

/// Lets a request in that carries the API token.
pub fn require_bearer_token(header: Option<&str>, expected: &str) -> (r: Result<(), ApiError>)
    ensures
        ({
            let bearer = crate::proxy::http::bearer_of(
                match header {
                    Some(h) => Some(h@),
                    None => None,
                },
            );
            match r {
                Ok(()) => bearer == Some(expected@),
                Err(e) => bearer != Some(expected@) && e.status == 401 && e.message@
                    == "missing or invalid bearer token"@,
            }
        }),
{
    let authorized = match bearer_token(header) {
        Some(token) => {
            proof {
                if encode_utf8(token@) == encode_utf8(expected@) {
                    text::lemma_encode_injective(token@, expected@);
                }
            }
            constant_time_eq(token.as_str().as_bytes(), expected.as_bytes())
        },
        None => false,
    };
    if authorized {
        Ok(())
    } else {
        Err(ApiError::new(401, "missing or invalid bearer token"))
    }
}

} // verus!
