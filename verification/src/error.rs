use vstd::prelude::*;
use vstd::string::StringExecFns;

verus! {

/// The closed set of failures the weather client can surface.
///
/// `Config` is a missing or empty credential, `Transport` a network-level
/// failure, `HttpStatus` a non-2xx upstream answer with its exact code,
/// `Decode` a response body that is not the expected shape, and `Input` an
/// empty user-supplied query.
#[derive(Clone, Copy, Debug, PartialEq, Eq, Structural)]
pub enum WeatherError {
    Config,
    Transport,
    HttpStatus { code: u16 },
    Decode,
    Input,
}

impl WeatherError {
    /// A diagnostic naming the failure's kind and, for an upstream status,
    /// the exact code. It never contains the credential.
    pub fn message(&self) -> (r: String)
        ensures
            *self is Config ==> r@ == "missing or empty API_KEY"@,
            *self is Transport ==> r@ == "network failure during request"@,
            *self matches WeatherError::HttpStatus { code } ==> r@ == "http status "@
                + crate::decimal::dec_digits(code as nat),
            *self is Decode ==> r@ == "response body could not be decoded"@,
            *self is Input ==> r@ == "no ZIP code entered"@,
    {
        match self {
            WeatherError::Config => String::from_str("missing or empty API_KEY"),
            WeatherError::Transport => String::from_str("network failure during request"),
            WeatherError::HttpStatus { code } => {
                let mut m = String::from_str("http status ");
                let digits = crate::decimal::u64_to_string(*code as u64);
                m.append(digits.as_str());
                m
            },
            WeatherError::Decode => String::from_str("response body could not be decoded"),
            WeatherError::Input => String::from_str("no ZIP code entered"),
        }
    }
}

} // verus!
