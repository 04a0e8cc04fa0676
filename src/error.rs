//! The errors that end a run, and error chains in words.
use vstd::prelude::*;

verus! {

/// A condition that makes the whole run meaningless.
#[derive(Clone, Copy, Debug, PartialEq, Eq, Structural)]
pub enum Error {
    /// The repository has this many remotes, not exactly one.
    WrongRemoteCount(usize),
    /// The remote's name is not UTF-8.
    InexpressableRemote,
    /// The remote's URL is not UTF-8.
    RemoteUrlNotUtf8,
    /// The remote's URL is neither an SSH nor an HTTPS repository URL.
    RemoteUrlNotGithub,
    /// A branch's name is not UTF-8.
    BranchNameNotUtf8,
}

pub open spec fn decimal_digits() -> Seq<char> {
    seq!['0', '1', '2', '3', '4', '5', '6', '7', '8', '9']
}

/// `n` written in decimal, without leading zeros.
pub open spec fn decimal(n: nat) -> Seq<char>
    decreases n,
{
    if n < 10 {
        seq![decimal_digits()[n as int]]
    } else {
        decimal(n / 10).push(decimal_digits()[(n % 10) as int])
    }
}

fn digit_text(d: usize) -> (r: &'static str)
    requires
        d < 10,
    ensures
        r@ == seq![decimal_digits()[d as int]],
{
    proof {
        reveal_strlit("0");
        reveal_strlit("1");
        reveal_strlit("2");
        reveal_strlit("3");
        reveal_strlit("4");
        reveal_strlit("5");
        reveal_strlit("6");
        reveal_strlit("7");
        reveal_strlit("8");
        reveal_strlit("9");
    }
    let r = if d == 0 {
        "0"
    } else if d == 1 {
        "1"
    } else if d == 2 {
        "2"
    } else if d == 3 {
        "3"
    } else if d == 4 {
        "4"
    } else if d == 5 {
        "5"
    } else if d == 6 {
        "6"
    } else if d == 7 {
        "7"
    } else if d == 8 {
        "8"
    } else {
        "9"
    };
    assert(r@ =~= seq![decimal_digits()[d as int]]);
    r
}

/// `n` in decimal.
fn decimal_text(n: usize) -> (r: String)
    ensures
        r@ == decimal(n as nat),
    decreases n,
{
    if n < 10 {
        String::from_str(digit_text(n))
    } else {
        let mut r = decimal_text(n / 10);
        r.append(digit_text(n % 10));
        r
    }
}

impl Error {
    pub open spec fn text(self) -> Seq<char> {
        match self {
            Error::WrongRemoteCount(n) => "wrong number of remotes: expected 1, have "@ + decimal(
                n as nat,
            ),
            Error::InexpressableRemote => "inexpressable remote: remote name was not utf-8"@,
            Error::RemoteUrlNotUtf8 => "remote url not utf-8"@,
            Error::RemoteUrlNotGithub => "remote url not recognized as github"@,
            Error::BranchNameNotUtf8 => "branch name not utf-8"@,
        }
    }

    /// The error in words.
    pub fn message(&self) -> (r: String)
        ensures
            r@ == self.text(),
    {
        match self {
            Error::WrongRemoteCount(n) => {
                let head = String::from_str("wrong number of remotes: expected 1, have ");
                let count = decimal_text(*n);
                head.concat(count.as_str())
            },
            Error::InexpressableRemote => String::from_str(
                "inexpressable remote: remote name was not utf-8",
            ),
            Error::RemoteUrlNotUtf8 => String::from_str("remote url not utf-8"),
            Error::RemoteUrlNotGithub => String::from_str("remote url not recognized as github"),
            Error::BranchNameNotUtf8 => String::from_str("branch name not utf-8"),
        }
    }
}

/// The causes, outermost first, joined by `": "`.
pub open spec fn joined(causes: Seq<String>) -> Seq<char>
    decreases causes.len(),
{
    if causes.len() == 0 {
        Seq::empty()
    } else if causes.len() == 1 {
        causes[0]@
    } else {
        causes[0]@ + ": "@ + joined(causes.drop_first())
    }
}

/// An error chain in one line: each cause, outermost first, joined by `": "`.
pub fn flatten_errors(causes: &Vec<String>) -> (r: String)
    ensures
        r@ == joined(causes@),
{
    let mut buffer = String::new();
    if causes.len() > 0 {
        flatten_errors_inner(causes, 0, &mut buffer);
        proof {
            assert(causes@.subrange(0, causes@.len() as int) =~= causes@);
        }
    }
    buffer
}

/// Appends the causes from `from` on to `buffer`.
fn flatten_errors_inner(causes: &Vec<String>, from: usize, buffer: &mut String)
    requires
        from < causes@.len(),
    ensures
        final(buffer)@ == old(buffer)@ + joined(causes@.subrange(from as int, causes@.len() as int)),
    decreases causes@.len() - from,
{
    let rest = Ghost(causes@.subrange(from as int, causes@.len() as int));
    buffer.append(causes[from].as_str());
    if from < causes.len() - 1 {
        proof {
            reveal_strlit(": ");
        }
        buffer.append(": ");
        flatten_errors_inner(causes, from + 1, buffer);
        proof {
            assert(rest@.drop_first() =~= causes@.subrange(from + 1, causes@.len() as int));
            assert(final(buffer)@ =~= old(buffer)@ + joined(rest@));
        }
    } else {
        proof {
            assert(rest@.len() == 1);
        }
    }
}

} // verus!
