//! Failure taxonomy: the library's error type and the terminal failure reasons.
use vstd::prelude::*;
use crate::text::str_eq;

verus! {

/// The reasons for which a post is recorded as a terminal failure.
#[derive(Clone, Copy, Debug, PartialEq, Eq, Structural)]
pub enum TweetFailReason {
    Restricted,
    Deleted,
    AccountSuspended,
    AccountNotExisted,
}

/// What went wrong, as contracts see it.
pub enum Fault {
    Custom(Seq<char>),
    LoginFailed(Seq<char>),
    NotExists,
    AccountSuspended,
    AccountNotExisted,
    AdultContent,
    Restricted,
    IllegalBan,
    NotATweet,
    ParseFailed(Option<Seq<char>>),
    Unknown(Seq<char>),
    JsonFailed(Option<Seq<char>>),
    SchemaInvalid,
    Todo(Seq<char>),
    Unimplemented(Seq<char>),
    RateLimitExceeded,
    DBError,
    DuplicateKey,
    NotFound,
}

#[derive(Debug)]
pub enum Error {
    CustomError { msg: String },
    LoginFailed { msg: String },
    TweetNotExists,
    TwitterAccountSuspended,
    TwitterAccountNotExisted,
    TweetAdultContent,
    TweetRestricted,
    TweetIllegalBan,
    NotATweet,
    TweetParseFailed(Option<String>),
    TweetUnknownError(String),
    JsonFailed(Option<String>),
    TweetJsonSchemaInvalid,
    Todo(String),
    Unimplemented(String),
    RateLimitExceeded,
    DBError,
    /// A store already holds a row with the same key.
    DuplicateKey,
    /// A store holds no row with the key asked for.
    NotFound,
}

pub open spec fn opt_view(o: Option<String>) -> Option<Seq<char>> {
    match o {
        Some(s) => Some(s@),
        None => None,
    }
}

impl TweetFailReason {
    /// The name under which the reason is stored.
    pub open spec fn name(self) -> Seq<char> {
        match self {
            TweetFailReason::Restricted => "restricted"@,
            TweetFailReason::Deleted => "deleted"@,
            TweetFailReason::AccountSuspended => "account suspended"@,
            TweetFailReason::AccountNotExisted => "account not existed"@,
        }
    }

    /// The error that a stored failure stands for.
    pub open spec fn error_fault(self) -> Fault {
        match self {
            TweetFailReason::Restricted => Fault::Restricted,
            TweetFailReason::Deleted => Fault::NotExists,
            TweetFailReason::AccountSuspended => Fault::AccountSuspended,
            TweetFailReason::AccountNotExisted => Fault::AccountNotExisted,
        }
    }

    pub fn to_string(&self) -> (r: String)
        ensures
            r@ == self.name(),
    {
        let s = match self {
            TweetFailReason::Restricted => "restricted",
            TweetFailReason::Deleted => "deleted",
            TweetFailReason::AccountSuspended => "account suspended",
            TweetFailReason::AccountNotExisted => "account not existed",
        };
        String::from_str(s)
    }

    /// The reason stored under `value`, if any.
    pub fn try_from(value: String) -> (r: Result<TweetFailReason, ()>)
        ensures
            match r {
                Ok(f) => f.name() == value@,
                Err(_) => forall|f: TweetFailReason| f.name() != value@,
            },
    {
        let v = value.as_str();
        if str_eq(v, "restricted") {
            Ok(TweetFailReason::Restricted)
        } else if str_eq(v, "deleted") {
            Ok(TweetFailReason::Deleted)
        } else if str_eq(v, "account suspended") {
            Ok(TweetFailReason::AccountSuspended)
        } else if str_eq(v, "account not existed") {
            Ok(TweetFailReason::AccountNotExisted)
        } else {
            assert forall|f: TweetFailReason| f.name() != value@ by {
                match f {
                    TweetFailReason::Restricted => {},
                    TweetFailReason::Deleted => {},
                    TweetFailReason::AccountSuspended => {},
                    TweetFailReason::AccountNotExisted => {},
                }
            }
            Err(())
        }
    }
}

impl From<TweetFailReason> for Error {
    fn from(f: TweetFailReason) -> (r: Error) {
        match f {
            TweetFailReason::Restricted => Error::TweetRestricted,
            TweetFailReason::Deleted => Error::TweetNotExists,
            TweetFailReason::AccountSuspended => Error::TwitterAccountSuspended,
            TweetFailReason::AccountNotExisted => Error::TwitterAccountNotExisted,
        }
    }
}

impl vstd::std_specs::convert::FromSpecImpl<TweetFailReason> for Error {
    open spec fn obeys_from_spec() -> bool {
        true
    }

    open spec fn from_spec(f: TweetFailReason) -> Error {
        match f {
            TweetFailReason::Restricted => Error::TweetRestricted,
            TweetFailReason::Deleted => Error::TweetNotExists,
            TweetFailReason::AccountSuspended => Error::TwitterAccountSuspended,
            TweetFailReason::AccountNotExisted => Error::TwitterAccountNotExisted,
        }
    }
}

/// The terminal reason that an error is recorded under, if it is terminal.
pub open spec fn fail_reason_of(f: Fault) -> Option<TweetFailReason> {
    match f {
        Fault::Restricted => Some(TweetFailReason::Restricted),
        Fault::NotExists => Some(TweetFailReason::Deleted),
        Fault::AccountSuspended => Some(TweetFailReason::AccountSuspended),
        Fault::AccountNotExisted => Some(TweetFailReason::AccountNotExisted),
        Fault::IllegalBan => Some(TweetFailReason::Deleted),
        _ => None,
    }
}

impl Error {
    pub open spec fn fault(&self) -> Fault {
        match self {
            Error::CustomError { msg } => Fault::Custom(msg@),
            Error::LoginFailed { msg } => Fault::LoginFailed(msg@),
            Error::TweetNotExists => Fault::NotExists,
            Error::TwitterAccountSuspended => Fault::AccountSuspended,
            Error::TwitterAccountNotExisted => Fault::AccountNotExisted,
            Error::TweetAdultContent => Fault::AdultContent,
            Error::TweetRestricted => Fault::Restricted,
            Error::TweetIllegalBan => Fault::IllegalBan,
            Error::NotATweet => Fault::NotATweet,
            Error::TweetParseFailed(m) => Fault::ParseFailed(opt_view(*m)),
            Error::TweetUnknownError(m) => Fault::Unknown(m@),
            Error::JsonFailed(m) => Fault::JsonFailed(opt_view(*m)),
            Error::TweetJsonSchemaInvalid => Fault::SchemaInvalid,
            Error::Todo(m) => Fault::Todo(m@),
            Error::Unimplemented(m) => Fault::Unimplemented(m@),
            Error::RateLimitExceeded => Fault::RateLimitExceeded,
            Error::DBError => Fault::DBError,
            Error::DuplicateKey => Fault::DuplicateKey,
            Error::NotFound => Fault::NotFound,
        }
    }

    /// The human-readable description of an error.
    pub open spec fn message_spec(&self) -> Seq<char> {
        match self {
            Error::CustomError { msg } => "ShiroTweet Error: "@ + msg@ + "."@,
            Error::LoginFailed { msg } => "Login failed: "@ + msg@ + "."@,
            Error::TweetNotExists => "Tweet does not exist."@,
            Error::TwitterAccountSuspended => "Twitter accound is suspended."@,
            Error::TwitterAccountNotExisted => "Twitter account not existed."@,
            Error::TweetAdultContent => "Tweet adult content, need login."@,
            Error::TweetRestricted => "Tweet is restricted by author."@,
            Error::TweetIllegalBan => "Tweet is banned for illegal content."@,
            Error::NotATweet => "Url is not a tweet link."@,
            Error::TweetParseFailed(m) => match m {
                Some(m) => "Tweet json data parse failed: "@ + m@ + "."@,
                None => "Tweet json data parse failed."@,
            },
            Error::TweetUnknownError(m) => "Unknown error for tweet: "@ + m@ + "."@,
            Error::JsonFailed(m) => match m {
                Some(m) => "Json failed: "@ + m@ + "."@,
                None => "Json failed."@,
            },
            Error::TweetJsonSchemaInvalid => "Tweet json schema invalid."@,
            Error::Todo(m) => "Todo: "@ + m@ + "."@,
            Error::Unimplemented(m) => "Unimplemented: "@ + m@ + "."@,
            Error::RateLimitExceeded => "Rate limit exceeded."@,
            Error::DBError => "Database error."@,
            Error::DuplicateKey => "Duplicate key."@,
            Error::NotFound => "Not found."@,
        }
    }

    /// The terminal failure reason of a classified error; `None` for errors
    /// that are worth retrying.
    pub fn try_make_fail_reason(&self) -> (r: Option<TweetFailReason>)
        ensures
            r == fail_reason_of(self.fault()),
    {
        match self {
            Error::TweetRestricted => Some(TweetFailReason::Restricted),
            Error::TweetNotExists => Some(TweetFailReason::Deleted),
            Error::TwitterAccountSuspended => Some(TweetFailReason::AccountSuspended),
            Error::TwitterAccountNotExisted => Some(TweetFailReason::AccountNotExisted),
            Error::TweetIllegalBan => Some(TweetFailReason::Deleted),
            _ => None,
        }
    }

    /// The human-readable description of the error.
    pub fn message(&self) -> (r: String)
        ensures
            r@ == self.message_spec(),
    {
        match self {
            Error::CustomError { msg } => framed("ShiroTweet Error: ", msg.as_str()),
            Error::LoginFailed { msg } => framed("Login failed: ", msg.as_str()),
            Error::TweetNotExists => String::from_str("Tweet does not exist."),
            Error::TwitterAccountSuspended => String::from_str("Twitter accound is suspended."),
            Error::TwitterAccountNotExisted => String::from_str("Twitter account not existed."),
            Error::TweetAdultContent => String::from_str("Tweet adult content, need login."),
            Error::TweetRestricted => String::from_str("Tweet is restricted by author."),
            Error::TweetIllegalBan => String::from_str("Tweet is banned for illegal content."),
            Error::NotATweet => String::from_str("Url is not a tweet link."),
            Error::TweetParseFailed(m) => match m {
                Some(m) => framed("Tweet json data parse failed: ", m.as_str()),
                None => String::from_str("Tweet json data parse failed."),
            },
            Error::TweetUnknownError(m) => framed("Unknown error for tweet: ", m.as_str()),
            Error::JsonFailed(m) => match m {
                Some(m) => framed("Json failed: ", m.as_str()),
                None => String::from_str("Json failed."),
            },
            Error::TweetJsonSchemaInvalid => String::from_str("Tweet json schema invalid."),
            Error::Todo(m) => framed("Todo: ", m.as_str()),
            Error::Unimplemented(m) => framed("Unimplemented: ", m.as_str()),
            Error::RateLimitExceeded => String::from_str("Rate limit exceeded."),
            Error::DBError => String::from_str("Database error."),
            Error::DuplicateKey => String::from_str("Duplicate key."),
            Error::NotFound => String::from_str("Not found."),
        }
    }
}

/// `head`, then `body`, then a full stop.
fn framed(head: &str, body: &str) -> (r: String)
    ensures
        r@ == head@ + body@ + "."@,
{
    let mut s = String::from_str(head);
    s.append(body);
    s.append(".");
    s
}

} // verus!
