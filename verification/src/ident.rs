use vstd::prelude::*;
use crate::text::{decimal, lower, push_char, push_decimal, to_lower};

verus! {

/// A character that may start an identifier: an ASCII letter or `_`.
pub open spec fn is_ident_start(c: char) -> bool {
    ('a' <= c && c <= 'z') || ('A' <= c && c <= 'Z') || c == '_'
}

/// A character that may follow the first one: also an ASCII digit.
pub open spec fn is_ident_continue(c: char) -> bool {
    is_ident_start(c) || ('0' <= c && c <= '9')
}

/// Every character of `s` may stand inside an identifier.
pub open spec fn is_ident_tail(s: Seq<char>) -> bool {
    forall|i: int| 0 <= i < s.len() ==> is_ident_continue(#[trigger] s[i])
}

/// `s` is an identifier: not empty, a letter or `_` first, then letters,
/// digits and `_`.
pub open spec fn is_ident(s: Seq<char>) -> bool {
    &&& s.len() > 0
    &&& is_ident_start(s[0])
    &&& is_ident_tail(s)
}

/// Whether `c` may start an identifier.
pub fn ident_start(c: char) -> (r: bool)
    ensures
        r == is_ident_start(c),
{
    ('a' <= c && c <= 'z') || ('A' <= c && c <= 'Z') || c == '_'
}

/// Whether `c` may stand inside an identifier.
pub fn ident_continue(c: char) -> (r: bool)
    ensures
        r == is_ident_continue(c),
{
    ident_start(c) || ('0' <= c && c <= '9')
}

/// An identifier followed by identifier characters is an identifier.
pub proof fn lemma_ident_append(a: Seq<char>, b: Seq<char>)
    requires
        is_ident(a),
        is_ident_tail(b),
    ensures
        is_ident(a + b),
{
    let s = a + b;
    assert(s[0] == a[0]);
    assert forall|i: int| 0 <= i < s.len() implies is_ident_continue(#[trigger] s[i]) by {
        if i < a.len() {
            assert(s[i] == a[i]);
        } else {
            assert(s[i] == b[i - a.len()]);
        }
    }
}

/// A decimal numeral is made of digits.
pub proof fn lemma_decimal_tail(n: nat)
    ensures
        is_ident_tail(decimal(n)),
        decimal(n).len() > 0,
    decreases n,
{
    if n >= 10 {
        lemma_decimal_tail(n / 10);
    }
}

/// Case folding keeps an identifier an identifier.
pub proof fn lemma_lower_ident(s: Seq<char>)
    requires
        is_ident(s),
    ensures
        is_ident(lower(s)),
{
    let t = lower(s);
    assert forall|i: int| 0 <= i < t.len() implies is_ident_continue(#[trigger] t[i]) by {
        assert(is_ident_continue(s[i]));
    }
}

/// A name in generated code. Every value of this type is an identifier in
/// the sense of [`is_ident`].
#[derive(Debug, PartialEq, Eq)]
pub struct Ident {
    name: String,
}

impl View for Ident {
    type V = Seq<char>;

    closed spec fn view(&self) -> Seq<char> {
        self.name@
    }
}

impl Ident {
    #[verifier::type_invariant]
    spec fn well_formed(self) -> bool {
        is_ident(self.name@)
    }

    /// The identifier spelled `s`, if `s` is one.
    pub fn new(s: &str) -> (r: Option<Ident>)
        ensures
            match r {
                Some(id) => is_ident(s@) && id@ == s@,
                None => !is_ident(s@),
            },
    {
        let mut name = String::new();
        let mut first = true;
        for c in it: s.chars()
            invariant
                it.seq() == s@,
                name@ == s@.take(it.index() as int),
                first == (it.index() == 0),
                is_ident_tail(name@),
                it.index() > 0 ==> is_ident_start(s@[0]),
        {
            if first {
                if !ident_start(c) {
                    return None;
                }
                first = false;
            } else if !ident_continue(c) {
                return None;
            }
            push_char(&mut name, c);
        }
        if first {
            return None;
        }
        assert(name@ == s@);
        Some(Ident { name })
    }

    /// The identifier spelled `s`, which the caller knows to be one.
    pub(crate) fn from_valid(s: &str) -> (r: Ident)
        requires
            is_ident(s@),
        ensures
            r@ == s@,
    {
        Ident { name: String::from_str(s) }
    }

    /// The identifier's text.
    pub fn as_str(&self) -> (r: &str)
        ensures
            r@ == self@,
            is_ident(r@),
    {
        proof {
            use_type_invariant(self);
        }
        self.name.as_str()
    }

    /// This identifier followed by `suffix`.
    pub(crate) fn with_suffix(&self, suffix: &str) -> (r: Ident)
        requires
            is_ident_tail(suffix@),
        ensures
            r@ == self@ + suffix@,
    {
        proof {
            use_type_invariant(self);
            lemma_ident_append(self.name@, suffix@);
        }
        let mut name = self.name.clone();
        name.append(suffix);
        Ident { name }
    }

    /// This identifier followed by the decimal numeral of `n`.
    pub fn with_number(&self, n: u128) -> (r: Ident)
        ensures
            r@ == self@ + decimal(n as nat),
    {
        proof {
            use_type_invariant(self);
            lemma_decimal_tail(n as nat);
            lemma_ident_append(self.name@, decimal(n as nat));
        }
        let mut name = self.name.clone();
        push_decimal(&mut name, n);
        Ident { name }
    }

    /// This identifier with its letters case-folded.
    pub fn lowered(&self) -> (r: Ident)
        ensures
            r@ == lower(self@),
    {
        proof {
            use_type_invariant(self);
            lemma_lower_ident(self.name@);
        }
        let name = to_lower(self.name.as_str());
        Ident { name }
    }

    /// Whether the two identifiers are spelled alike.
    pub fn same(&self, other: &Ident) -> (r: bool)
        ensures
            r == (self@ == other@),
    {
        self.name == other.name
    }

    /// Whether the identifier is spelled `s`.
    pub fn is(&self, s: &str) -> (r: bool)
        ensures
            r == (self@ == s@),
    {
        let t = String::from_str(s);
        self.name == t
    }
}

impl Clone for Ident {
    fn clone(&self) -> (r: Ident)
        ensures
            r@ == self@,
    {
        proof {
            use_type_invariant(self);
        }
        Ident { name: self.name.clone() }
    }
}

} // verus!
