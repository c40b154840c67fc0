//! Results of running a kitten (a helper program run by the terminal).
use vstd::prelude::*;
use crate::text::{digit_chars, push_digits};

verus! {

/// How a kitten run ended.
#[derive(Debug, Clone)]
pub enum KittenResult {
    Success,
    Output(String),
    Error(String),
    Partial(String),
    Exit(i32),
}

/// The decimal text of `n`, with a minus sign when negative.
pub open spec fn int_text(n: int) -> Seq<char> {
    if n < 0 {
        seq!['-'] + digit_chars((-n) as nat)
    } else {
        digit_chars(n as nat)
    }
}

impl KittenResult {
    /// A success, an output or a partial result.
    pub fn is_success(&self) -> (b: bool)
        ensures
            b == (self is Success || self is Output || self is Partial),
    {
        match self {
            KittenResult::Success => true,
            KittenResult::Output(_) => true,
            KittenResult::Partial(_) => true,
            _ => false,
        }
    }

    /// The message of the result: `OK`, the text carried, or `Exited with code <n>`.
    pub fn message(&self) -> (m: String)
        ensures
            m@ == (match self {
                KittenResult::Success => "OK"@,
                KittenResult::Output(s) => s@,
                KittenResult::Error(s) => s@,
                KittenResult::Partial(s) => s@,
                KittenResult::Exit(code) => "Exited with code "@ + int_text(*code as int),
            }),
    {
        match self {
            KittenResult::Success => "OK".to_owned(),
            KittenResult::Output(s) => s.clone(),
            KittenResult::Error(s) => s.clone(),
            KittenResult::Partial(s) => s.clone(),
            KittenResult::Exit(code) => {
                let mut m = "Exited with code ".to_owned();
                let ghost head = m@;
                if *code < 0 {
                    m.push('-');
                    let magnitude: u64 = (0 - (*code as i64)) as u64;
                    push_digits(&mut m, magnitude);
                } else {
                    push_digits(&mut m, *code as u64);
                }
                assert(m@ =~= head + int_text(*code as int));
                m
            },
        }
    }
}

} // verus!
