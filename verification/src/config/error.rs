//! The configuration error and the small option helpers shared by the
//! configuration modules.

use vstd::prelude::*;

use crate::text::{push_str, string_of};

verus! {

/// Why a configuration could not be loaded.
#[derive(Debug)]
pub enum ConfigError {
    /// A file could not be read (the reader's message).
    Io(String),
    /// A file is not valid TOML for its shape (the parser's message).
    Toml(String),
    /// The configuration breaks one of its rules.
    Invalid(String),
}

/// `e` is an `Invalid` error with message `msg`.
pub open spec fn invalid(e: ConfigError, msg: Seq<char>) -> bool {
    e matches ConfigError::Invalid(m) && m@ == msg
}

/// `r` is the outcome `s` describes: the same success value (by `view`) or
/// an `Invalid` error with the same message.
pub open spec fn outcome<T, V>(r: Result<T, ConfigError>, s: Result<V, Seq<char>>, view: spec_fn(T) -> V) -> bool {
    match s {
        Ok(v) => r matches Ok(x) && view(x) == v,
        Err(m) => r matches Err(e) && invalid(e, m),
    }
}

impl ConfigError {
    /// The message as the error is displayed.
    pub fn message(&self) -> (r: String)
        ensures
            r@ == match self {
                ConfigError::Io(m) => "io: "@ + m@,
                ConfigError::Toml(m) => "toml: "@ + m@,
                ConfigError::Invalid(m) => "invalid config: "@ + m@,
            },
    {
        let mut out: Vec<char> = Vec::new();
        match self {
            ConfigError::Io(m) => {
                push_str(&mut out, "io: ");
                push_str(&mut out, m.as_str());
            },
            ConfigError::Toml(m) => {
                push_str(&mut out, "toml: ");
                push_str(&mut out, m.as_str());
            },
            ConfigError::Invalid(m) => {
                push_str(&mut out, "invalid config: ");
                push_str(&mut out, m.as_str());
            },
        }
        string_of(&out)
    }
}

/// An `Invalid` error carrying the chars of `msg`.
pub fn invalid_error(msg: &Vec<char>) -> (e: ConfigError)
    ensures
        invalid(e, msg@),
{
    ConfigError::Invalid(string_of(msg))
}

/// The chars of an optional string.
pub open spec fn os(o: Option<String>) -> Option<Seq<char>> {
    match o {
        Some(s) => Some(s@),
        None => None,
    }
}

pub open spec fn strs(v: Seq<String>) -> Seq<Seq<char>> {
    v.map_values(|s: String| s@)
}

/// The chars of each string of an optional list.
pub open spec fn ov(o: Option<Vec<String>>) -> Option<Seq<Seq<char>>> {
    match o {
        Some(v) => Some(strs(v@)),
        None => None,
    }
}

/// `a` when it is set, else `b`.
pub open spec fn or_opt<T>(a: Option<T>, b: Option<T>) -> Option<T> {
    match a {
        Some(x) => Some(x),
        None => b,
    }
}

pub fn copy_str(s: &String) -> (r: String)
    ensures
        r@ == s@,
{
    s.clone()
}

pub fn copy_opt_str(o: &Option<String>) -> (r: Option<String>)
    ensures
        os(r) == os(*o),
{
    match o {
        Some(s) => Some(s.clone()),
        None => None,
    }
}

pub fn copy_strs(v: &Vec<String>) -> (r: Vec<String>)
    ensures
        strs(r@) == strs(v@),
{
    let mut r: Vec<String> = Vec::new();
    let mut i: usize = 0;
    while i < v.len()
        invariant
            i <= v.len(),
            strs(r@) =~= strs(v@.take(i as int)),
        decreases v.len() - i,
    {
        let c = v[i].clone();
        assert(c@ == v@[i as int]@);
        r.push(c);
        proof {
            assert(v@.take(i + 1) =~= v@.take(i as int).push(v@[i as int]));
            assert(strs(r@) =~= strs(v@.take(i as int)).push(c@));
        }
        i = i + 1;
    }
    assert(v@.take(v.len() as int) =~= v@);
    r
}

pub fn copy_opt_strs(o: &Option<Vec<String>>) -> (r: Option<Vec<String>>)
    ensures
        ov(r) == ov(*o),
{
    match o {
        Some(v) => Some(copy_strs(v)),
        None => None,
    }
}

pub fn or_str(a: &Option<String>, b: &Option<String>) -> (r: Option<String>)
    ensures
        os(r) == or_opt(os(*a), os(*b)),
{
    match a {
        Some(_) => copy_opt_str(a),
        None => copy_opt_str(b),
    }
}

pub fn or_strs(a: &Option<Vec<String>>, b: &Option<Vec<String>>) -> (r: Option<Vec<String>>)
    ensures
        ov(r) == or_opt(ov(*a), ov(*b)),
{
    match a {
        Some(_) => copy_opt_strs(a),
        None => copy_opt_strs(b),
    }
}

pub fn or_copy<T: Copy>(a: Option<T>, b: Option<T>) -> (r: Option<T>)
    ensures
        r == or_opt(a, b),
{
    match a {
        Some(x) => Some(x),
        None => b,
    }
}

} // verus!
