use vstd::prelude::*;
use proc_macro2::TokenStream;
use crate::ident::is_ident;
use crate::tokens::{push_ident, stream_lexemes, Lexeme};

verus! {

/// The fixed words of generated code: keywords of the language and the
/// names of the items that generated code refers to.
#[derive(Clone, Copy, PartialEq, Eq, Structural, Debug)]
pub enum Word {
    Pub,
    Use,
    SelfValue,
    Mod,
    Allow,
    DeadCode,
    Std,
    Collections,
    HashMap,
    Prometheus,
    Local,
    CellModule,
    Cell,
    Coarsetime,
    Instant,
    Thread,
    LocalKey,
    UnusedImports,
    Super,
    MissingCopyImplementations,
    Struct,
    LastFlush,
    Impl,
    Fn,
    From,
    M,
    Str,
    For,
    LocalMetric,
    Flush,
    MayFlush,
    MayFlushMethod,
    TryFlush,
    As,
    Float,
    Let,
    Mut,
    Coll,
    New,
    Insert,
    With,
    Now,
    Root,
    Static,
    Usize,
    Get,
    EnumValue,
    Match,
    Member,
    Offset,
    Unreachable,
    Underscore,
    Delegator,
    GetRootMetric,
    GetCounter,
    A,
    RootMetric,
    Inner,
    Enum,
    NonCamelCaseTypes,
    Derive,
    Clone,
    Copy,
    PartialEq,
    GetStr,
    Fmt,
    Debug,
    Display,
    F,
    Formatter,
    Result,
    Write,
}

impl Word {
    /// How the word is spelled.
    pub open spec fn text(self) -> Seq<char> {
        match self {
            Word::Pub => "pub"@,
            Word::Use => "use"@,
            Word::SelfValue => "self"@,
            Word::Mod => "mod"@,
            Word::Allow => "allow"@,
            Word::DeadCode => "dead_code"@,
            Word::Std => "std"@,
            Word::Collections => "collections"@,
            Word::HashMap => "HashMap"@,
            Word::Prometheus => "prometheus"@,
            Word::Local => "local"@,
            Word::CellModule => "cell"@,
            Word::Cell => "Cell"@,
            Word::Coarsetime => "coarsetime"@,
            Word::Instant => "Instant"@,
            Word::Thread => "thread"@,
            Word::LocalKey => "LocalKey"@,
            Word::UnusedImports => "unused_imports"@,
            Word::Super => "super"@,
            Word::MissingCopyImplementations => "missing_copy_implementations"@,
            Word::Struct => "struct"@,
            Word::LastFlush => "last_flush"@,
            Word::Impl => "impl"@,
            Word::Fn => "fn"@,
            Word::From => "from"@,
            Word::M => "m"@,
            Word::Str => "str"@,
            Word::For => "for"@,
            Word::LocalMetric => "LocalMetric"@,
            Word::Flush => "flush"@,
            Word::MayFlush => "MayFlush"@,
            Word::MayFlushMethod => "may_flush"@,
            Word::TryFlush => "try_flush"@,
            Word::As => "as"@,
            Word::Float => "f64"@,
            Word::Let => "let"@,
            Word::Mut => "mut"@,
            Word::Coll => "coll"@,
            Word::New => "new"@,
            Word::Insert => "insert"@,
            Word::With => "with"@,
            Word::Now => "now"@,
            Word::Root => "root"@,
            Word::Static => "static"@,
            Word::Usize => "usize"@,
            Word::Get => "get"@,
            Word::EnumValue => "enum_value"@,
            Word::Match => "match"@,
            Word::Member => "member"@,
            Word::Offset => "offset"@,
            Word::Unreachable => "unreachable"@,
            Word::Underscore => "_"@,
            Word::Delegator => "AFLocalCounterDelegator"@,
            Word::GetRootMetric => "get_root_metric"@,
            Word::GetCounter => "get_counter"@,
            Word::A => "a"@,
            Word::RootMetric => "root_metric"@,
            Word::Inner => "inner"@,
            Word::Enum => "enum"@,
            Word::NonCamelCaseTypes => "non_camel_case_types"@,
            Word::Derive => "derive"@,
            Word::Clone => "Clone"@,
            Word::Copy => "Copy"@,
            Word::PartialEq => "PartialEq"@,
            Word::GetStr => "get_str"@,
            Word::Fmt => "fmt"@,
            Word::Debug => "Debug"@,
            Word::Display => "Display"@,
            Word::F => "f"@,
            Word::Formatter => "Formatter"@,
            Word::Result => "Result"@,
            Word::Write => "write"@,
        }
    }

    /// How the word is spelled. Every word is an identifier.
    pub fn as_str(self) -> (r: &'static str)
        ensures
            r@ == self.text(),
            is_ident(r@),
    {
        match self {
            Word::Pub => {
                proof {
                    reveal_strlit("pub");
                }
                "pub"
            },
            Word::Use => {
                proof {
                    reveal_strlit("use");
                }
                "use"
            },
            Word::SelfValue => {
                proof {
                    reveal_strlit("self");
                }
                "self"
            },
            Word::Mod => {
                proof {
                    reveal_strlit("mod");
                }
                "mod"
            },
            Word::Allow => {
                proof {
                    reveal_strlit("allow");
                }
                "allow"
            },
            Word::DeadCode => {
                proof {
                    reveal_strlit("dead_code");
                }
                "dead_code"
            },
            Word::Std => {
                proof {
                    reveal_strlit("std");
                }
                "std"
            },
            Word::Collections => {
                proof {
                    reveal_strlit("collections");
                }
                "collections"
            },
            Word::HashMap => {
                proof {
                    reveal_strlit("HashMap");
                }
                "HashMap"
            },
            Word::Prometheus => {
                proof {
                    reveal_strlit("prometheus");
                }
                "prometheus"
            },
            Word::Local => {
                proof {
                    reveal_strlit("local");
                }
                "local"
            },
            Word::CellModule => {
                proof {
                    reveal_strlit("cell");
                }
                "cell"
            },
            Word::Cell => {
                proof {
                    reveal_strlit("Cell");
                }
                "Cell"
            },
            Word::Coarsetime => {
                proof {
                    reveal_strlit("coarsetime");
                }
                "coarsetime"
            },
            Word::Instant => {
                proof {
                    reveal_strlit("Instant");
                }
                "Instant"
            },
            Word::Thread => {
                proof {
                    reveal_strlit("thread");
                }
                "thread"
            },
            Word::LocalKey => {
                proof {
                    reveal_strlit("LocalKey");
                }
                "LocalKey"
            },
            Word::UnusedImports => {
                proof {
                    reveal_strlit("unused_imports");
                }
                "unused_imports"
            },
            Word::Super => {
                proof {
                    reveal_strlit("super");
                }
                "super"
            },
            Word::MissingCopyImplementations => {
                proof {
                    reveal_strlit("missing_copy_implementations");
                }
                "missing_copy_implementations"
            },
            Word::Struct => {
                proof {
                    reveal_strlit("struct");
                }
                "struct"
            },
            Word::LastFlush => {
                proof {
                    reveal_strlit("last_flush");
                }
                "last_flush"
            },
            Word::Impl => {
                proof {
                    reveal_strlit("impl");
                }
                "impl"
            },
            Word::Fn => {
                proof {
                    reveal_strlit("fn");
                }
                "fn"
            },
            Word::From => {
                proof {
                    reveal_strlit("from");
                }
                "from"
            },
            Word::M => {
                proof {
                    reveal_strlit("m");
                }
                "m"
            },
            Word::Str => {
                proof {
                    reveal_strlit("str");
                }
                "str"
            },
            Word::For => {
                proof {
                    reveal_strlit("for");
                }
                "for"
            },
            Word::LocalMetric => {
                proof {
                    reveal_strlit("LocalMetric");
                }
                "LocalMetric"
            },
            Word::Flush => {
                proof {
                    reveal_strlit("flush");
                }
                "flush"
            },
            Word::MayFlush => {
                proof {
                    reveal_strlit("MayFlush");
                }
                "MayFlush"
            },
            Word::MayFlushMethod => {
                proof {
                    reveal_strlit("may_flush");
                }
                "may_flush"
            },
            Word::TryFlush => {
                proof {
                    reveal_strlit("try_flush");
                }
                "try_flush"
            },
            Word::As => {
                proof {
                    reveal_strlit("as");
                }
                "as"
            },
            Word::Float => {
                proof {
                    reveal_strlit("f64");
                }
                "f64"
            },
            Word::Let => {
                proof {
                    reveal_strlit("let");
                }
                "let"
            },
            Word::Mut => {
                proof {
                    reveal_strlit("mut");
                }
                "mut"
            },
            Word::Coll => {
                proof {
                    reveal_strlit("coll");
                }
                "coll"
            },
            Word::New => {
                proof {
                    reveal_strlit("new");
                }
                "new"
            },
            Word::Insert => {
                proof {
                    reveal_strlit("insert");
                }
                "insert"
            },
            Word::With => {
                proof {
                    reveal_strlit("with");
                }
                "with"
            },
            Word::Now => {
                proof {
                    reveal_strlit("now");
                }
                "now"
            },
            Word::Root => {
                proof {
                    reveal_strlit("root");
                }
                "root"
            },
            Word::Static => {
                proof {
                    reveal_strlit("static");
                }
                "static"
            },
            Word::Usize => {
                proof {
                    reveal_strlit("usize");
                }
                "usize"
            },
            Word::Get => {
                proof {
                    reveal_strlit("get");
                }
                "get"
            },
            Word::EnumValue => {
                proof {
                    reveal_strlit("enum_value");
                }
                "enum_value"
            },
            Word::Match => {
                proof {
                    reveal_strlit("match");
                }
                "match"
            },
            Word::Member => {
                proof {
                    reveal_strlit("member");
                }
                "member"
            },
            Word::Offset => {
                proof {
                    reveal_strlit("offset");
                }
                "offset"
            },
            Word::Unreachable => {
                proof {
                    reveal_strlit("unreachable");
                }
                "unreachable"
            },
            Word::Underscore => {
                proof {
                    reveal_strlit("_");
                }
                "_"
            },
            Word::Delegator => {
                proof {
                    reveal_strlit("AFLocalCounterDelegator");
                }
                "AFLocalCounterDelegator"
            },
            Word::GetRootMetric => {
                proof {
                    reveal_strlit("get_root_metric");
                }
                "get_root_metric"
            },
            Word::GetCounter => {
                proof {
                    reveal_strlit("get_counter");
                }
                "get_counter"
            },
            Word::A => {
                proof {
                    reveal_strlit("a");
                }
                "a"
            },
            Word::RootMetric => {
                proof {
                    reveal_strlit("root_metric");
                }
                "root_metric"
            },
            Word::Inner => {
                proof {
                    reveal_strlit("inner");
                }
                "inner"
            },
            Word::Enum => {
                proof {
                    reveal_strlit("enum");
                }
                "enum"
            },
            Word::NonCamelCaseTypes => {
                proof {
                    reveal_strlit("non_camel_case_types");
                }
                "non_camel_case_types"
            },
            Word::Derive => {
                proof {
                    reveal_strlit("derive");
                }
                "derive"
            },
            Word::Clone => {
                proof {
                    reveal_strlit("Clone");
                }
                "Clone"
            },
            Word::Copy => {
                proof {
                    reveal_strlit("Copy");
                }
                "Copy"
            },
            Word::PartialEq => {
                proof {
                    reveal_strlit("PartialEq");
                }
                "PartialEq"
            },
            Word::GetStr => {
                proof {
                    reveal_strlit("get_str");
                }
                "get_str"
            },
            Word::Fmt => {
                proof {
                    reveal_strlit("fmt");
                }
                "fmt"
            },
            Word::Debug => {
                proof {
                    reveal_strlit("Debug");
                }
                "Debug"
            },
            Word::Display => {
                proof {
                    reveal_strlit("Display");
                }
                "Display"
            },
            Word::F => {
                proof {
                    reveal_strlit("f");
                }
                "f"
            },
            Word::Formatter => {
                proof {
                    reveal_strlit("Formatter");
                }
                "Formatter"
            },
            Word::Result => {
                proof {
                    reveal_strlit("Result");
                }
                "Result"
            },
            Word::Write => {
                proof {
                    reveal_strlit("write");
                }
                "write"
            },
        }
    }
}

/// The word `w` as a lexeme.
pub open spec fn word(w: Word) -> Seq<Lexeme> {
    seq![Lexeme::Ident(w.text())]
}

/// Appends the word `w`.
pub(crate) fn push_word(ts: &mut TokenStream, w: Word)
    ensures
        stream_lexemes(*final(ts)) == stream_lexemes(*old(ts)) + word(w),
{
    push_ident(ts, w.as_str());
}

} // verus!
