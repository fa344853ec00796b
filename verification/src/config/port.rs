use vstd::prelude::*;
use crate::strutil::{all_digits, dec_value, split_chars, split_str};

verus! {

/// A port to forward.
#[derive(Debug, Copy, Clone, PartialEq, Eq, Structural)]
pub struct Port {
    /// The local port to forward to; chosen by the system when absent.
    pub local: Option<u16>,
    /// The remote port to forward to.
    pub remote: u16,
}

/// A usable port number: `0` is reserved, everything above needs no bound
/// beyond the width of the field.
pub open spec fn port_in_range(p: int) -> bool {
    1 <= p <= 65535
}

impl Port {
    /// The port numbers lie in `[1, 65535]`.
    pub open spec fn wf(self) -> bool {
        port_in_range(self.remote as int) && match self.local {
            Some(l) => port_in_range(l as int),
            None => true,
        }
    }
}

/// The ways a port specification can be rejected.
#[derive(Debug, Clone, Copy, PartialEq, Eq, Structural)]
pub enum PortParseError {
    /// The port number is zero or negative.
    NotPositive,
    /// The port number is above `65535`.
    TooLarge,
    /// The text is not a port number or a `local:remote` pair of them.
    InvalidFormat,
    /// A port object names no remote port.
    MissingRemote,
}

/// A port specification as a structured document yields it: a bare number,
/// a string, or an object with `local` and `remote` fields.
#[derive(Debug, Clone)]
pub enum PortValue {
    Number(i64),
    Text(String),
    Object { local: Option<i64>, remote: Option<i64> },
}

/// What a digit string denotes as a port number, if it fits in 16 bits.
pub open spec fn spec_port_num(s: Seq<char>) -> Option<u16> {
    if s.len() > 0 && all_digits(s) && dec_value(s) <= 65535 {
        Some(dec_value(s) as u16)
    } else {
        None
    }
}

/// The result of reading one side of a `local:remote` pair.
pub open spec fn spec_port_side(s: Seq<char>) -> Result<u16, PortParseError> {
    match spec_port_num(s) {
        None => Err(PortParseError::InvalidFormat),
        Some(v) => if v >= 1 {
            Ok(v)
        } else {
            Err(PortParseError::NotPositive)
        },
    }
}

/// The port mapping a string denotes: `remote`, `:remote` or `local:remote`.
pub open spec fn spec_port_str(s: Seq<char>) -> Result<Port, PortParseError> {
    let parts = split_chars(s, ':');
    if parts.len() == 1 {
        match spec_port_side(parts[0]) {
            Ok(v) => Ok(Port { local: None, remote: v }),
            Err(e) => Err(e),
        }
    } else if parts.len() == 2 {
        let local = if parts[0].len() == 0 {
            Ok(None)
        } else {
            match spec_port_side(parts[0]) {
                Ok(v) => Ok(Some(v)),
                Err(e) => Err(e),
            }
        };
        match local {
            Err(e) => Err(e),
            Ok(l) => match spec_port_side(parts[1]) {
                Ok(v) => Ok(Port { local: l, remote: v }),
                Err(e) => Err(e),
            },
        }
    } else {
        Err(PortParseError::InvalidFormat)
    }
}

fn parse_port_side(s: &str) -> (r: Result<u16, PortParseError>)
    ensures
        r == spec_port_side(s@),
{
    match crate::strutil::parse_u16(s) {
        None => Err(PortParseError::InvalidFormat),
        Some(v) => if v >= 1 {
            Ok(v)
        } else {
            Err(PortParseError::NotPositive)
        },
    }
}

/// The outcome of reading a port object: the remote port must be present,
/// and each given port must lie in range; the local port is examined
/// first.
pub open spec fn spec_port_object(local: Option<i64>, remote: Option<i64>) -> Result<
    Port,
    PortParseError,
> {
    match remote {
        None => Err(PortParseError::MissingRemote),
        Some(rv) => {
            let l_checked: Result<Option<u16>, PortParseError> = match local {
                None => Ok(None),
                Some(l) => if l <= 0 {
                    Err(PortParseError::NotPositive)
                } else if l > 65535 {
                    Err(PortParseError::TooLarge)
                } else {
                    Ok(Some(l as u16))
                },
            };
            match l_checked {
                Err(e) => Err(e),
                Ok(l) => if rv <= 0 {
                    Err(PortParseError::NotPositive)
                } else if rv > 65535 {
                    Err(PortParseError::TooLarge)
                } else {
                    Ok(Port { local: l, remote: rv as u16 })
                },
            }
        },
    }
}

impl Port {
    /// Reads a bare number as a remote port.
    pub fn from_number(remote: i64) -> (r: Result<Port, PortParseError>)
        ensures
            r is Ok <==> port_in_range(remote as int),
            r matches Ok(p) ==> p == (Port { local: None, remote: remote as u16 }),
            r == Err::<Port, PortParseError>(PortParseError::NotPositive) <==> remote <= 0,
            r == Err::<Port, PortParseError>(PortParseError::TooLarge) <==> remote > 65535,
    {
        if remote <= 0 {
            Err(PortParseError::NotPositive)
        } else if remote > 65535 {
            Err(PortParseError::TooLarge)
        } else {
            Ok(Port { local: None, remote: remote as u16 })
        }
    }

    /// Reads a string as `remote`, `:remote` or `local:remote`.
    pub fn parse_str(s: &str) -> (r: Result<Port, PortParseError>)
        ensures
            r == spec_port_str(s@),
            r matches Ok(p) ==> p.wf(),
    {
        let parts = split_str(s, ':');
        proof {
            assert(crate::strutil::views_of(parts@)[0] == parts@[0]@);
            if parts@.len() >= 2 {
                assert(crate::strutil::views_of(parts@)[1] == parts@[1]@);
            }
        }
        if parts.len() == 1 {
            match parse_port_side(parts[0].as_str()) {
                Ok(v) => Ok(Port { local: None, remote: v }),
                Err(e) => Err(e),
            }
        } else if parts.len() == 2 {
            let local = if parts[0].as_str().unicode_len() == 0 {
                None
            } else {
                match parse_port_side(parts[0].as_str()) {
                    Ok(v) => Some(v),
                    Err(e) => {
                        return Err(e);
                    },
                }
            };
            match parse_port_side(parts[1].as_str()) {
                Ok(v) => Ok(Port { local, remote: v }),
                Err(e) => Err(e),
            }
        } else {
            Err(PortParseError::InvalidFormat)
        }
    }

    /// Reads an object with optional `local` and required `remote` fields.
    pub fn from_object(local: Option<i64>, remote: Option<i64>) -> (r: Result<
        Port,
        PortParseError,
    >)
        ensures
            r == spec_port_object(local, remote),
            r matches Ok(p) ==> p.wf() && remote == Some(p.remote as i64) && match local {
                Some(l) => p.local == Some(l as u16),
                None => p.local is None,
            },
            r is Ok <==> (remote matches Some(rv) && port_in_range(rv as int) && match local {
                Some(l) => port_in_range(l as int),
                None => true,
            }),
    {
        let rv = match remote {
            None => {
                return Err(PortParseError::MissingRemote);
            },
            Some(rv) => rv,
        };
        let l = match local {
            None => None,
            Some(l) => {
                if l <= 0 {
                    return Err(PortParseError::NotPositive);
                }
                if l > 65535 {
                    return Err(PortParseError::TooLarge);
                }
                Some(l as u16)
            },
        };
        if rv <= 0 {
            return Err(PortParseError::NotPositive);
        }
        if rv > 65535 {
            return Err(PortParseError::TooLarge);
        }
        Ok(Port { local: l, remote: rv as u16 })
    }

    /// Reads a port mapping from any of the shapes a document may use.
    pub fn from_value(v: &PortValue) -> (r: Result<Port, PortParseError>)
        ensures
            match v {
                PortValue::Number(n) => r is Ok <==> port_in_range(*n as int),
                PortValue::Text(s) => r == spec_port_str(s@),
                PortValue::Object { local, remote } => r is Ok <==> (remote matches Some(rv)
                    && port_in_range(*rv as int) && match local {
                    Some(l) => port_in_range(*l as int),
                    None => true,
                }),
            },
            r matches Ok(p) ==> p.wf(),
            match v {
                PortValue::Number(n) => r is Ok ==> r == Ok::<Port, PortParseError>(
                    Port { local: None, remote: *n as u16 },
                ),
                _ => true,
            },
    {
        match v {
            PortValue::Number(n) => Port::from_number(*n),
            PortValue::Text(s) => Port::parse_str(s.as_str()),
            PortValue::Object { local, remote } => Port::from_object(*local, *remote),
        }
    }
}

/// The reported line for each rejection.
pub open spec fn spec_port_error_message(e: PortParseError) -> Seq<char> {
    match e {
        PortParseError::NotPositive => "Invalid port number: value must be positive"@,
        PortParseError::TooLarge =>
            "Invalid port number: value must be smaller than or equal to 65535"@,
        PortParseError::InvalidFormat => "Invalid string format"@,
        PortParseError::MissingRemote => "Invalid port: missing field remote"@,
    }
}

impl PortParseError {
    /// One concise line saying why the port specification was rejected.
    pub fn message(&self) -> (r: &'static str)
        ensures
            r@ == spec_port_error_message(*self),
    {
        match self {
            PortParseError::NotPositive => "Invalid port number: value must be positive",
            PortParseError::TooLarge => {
                "Invalid port number: value must be smaller than or equal to 65535"
            },
            PortParseError::InvalidFormat => "Invalid string format",
            PortParseError::MissingRemote => "Invalid port: missing field remote",
        }
    }
}

} // verus!
