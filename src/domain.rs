//! Hostnames under the reserved `.roxy` label and the exact / wildcard
//! patterns that registrations are keyed by.
use vstd::prelude::*;

use crate::text::{
    chars_equal, chars_of, ends_with, ends_with_exec, free_of, free_of_exec, is_ascii_alnum,
    is_ascii_alnum_exec, lower_of, lowercase, push_str, string_of,
};

verus! {

/// Filename prefix for a wildcard pattern's certificate; no valid `.roxy`
/// name can start with it.
pub const WILDCARD_CERT_PREFIX: &'static str = "__wildcard__.";

pub open spec fn roxy_suffix() -> Seq<char> {
    seq!['.', 'r', 'o', 'x', 'y']
}

/// Characters allowed before the `.roxy` suffix.
pub open spec fn is_name_char(c: char) -> bool {
    is_ascii_alnum(c) || c == '-' || c == '.'
}

/// A lowercased name is a valid `.roxy` domain: it ends with `.roxy`, has a
/// non-empty part before it made of letters, digits, hyphens and dots, and
/// that part neither starts nor ends with a hyphen or a dot.
pub open spec fn valid_domain(s: Seq<char>) -> bool {
    &&& ends_with(s, roxy_suffix())
    &&& s.len() >= 6
    &&& forall|i: int| 0 <= i < s.len() - 5 ==> is_name_char(#[trigger] s[i])
    &&& s[0] != '-' && s[0] != '.'
    &&& s[s.len() - 6] != '-' && s[s.len() - 6] != '.'
}

/// `h` is `label + "." + base` for a non-empty label without dots.
pub open spec fn one_label_above(h: Seq<char>, base: Seq<char>) -> bool {
    &&& h.len() > base.len() + 1
    &&& ends_with(h, base)
    &&& h[h.len() - base.len() - 1] == '.'
    &&& free_of(h, 0, h.len() - base.len() - 1, '.')
}

#[derive(Debug, Clone, PartialEq, Eq, Hash)]
pub struct DomainName(String);

#[derive(Debug)]
pub enum DomainNameError {
    InvalidSuffix(String),
    TooShort(String),
    InvalidCharacters(String),
}

impl View for DomainName {
    type V = Seq<char>;

    closed spec fn view(&self) -> Seq<char> {
        self.0@
    }
}

impl DomainName {
    /// Lowercases `name` and accepts it when it is a valid `.roxy` domain.
    pub fn new(name: &str) -> (r: Result<DomainName, DomainNameError>)
        ensures
            r is Ok <==> valid_domain(lower_of(name@)),
            r matches Ok(d) ==> d@ == lower_of(name@),
            r matches Err(DomainNameError::InvalidSuffix(s)) ==> !ends_with(
                lower_of(name@),
                roxy_suffix(),
            ) && s@ == lower_of(name@),
            r matches Err(DomainNameError::TooShort(s)) ==> ends_with(
                lower_of(name@),
                roxy_suffix(),
            ) && lower_of(name@).len() < 6 && s@ == lower_of(name@),
            r matches Err(DomainNameError::InvalidCharacters(s)) ==> ends_with(
                lower_of(name@),
                roxy_suffix(),
            ) && lower_of(name@).len() >= 6 && s@ == lower_of(name@),
    {
        DomainName::from_lowercased(lowercase(name))
    }

    /// Accepts an already lowercased name when it is a valid `.roxy`
    /// domain; the error carries the name.
    pub fn from_lowercased(lower: String) -> (r: Result<DomainName, DomainNameError>)
        ensures
            r is Ok <==> valid_domain(lower@),
            r matches Ok(d) ==> d@ == lower@,
            r matches Err(DomainNameError::InvalidSuffix(s)) ==> !ends_with(lower@, roxy_suffix())
                && s@ == lower@,
            r matches Err(DomainNameError::TooShort(s)) ==> ends_with(lower@, roxy_suffix())
                && lower@.len() < 6 && s@ == lower@,
            r matches Err(DomainNameError::InvalidCharacters(s)) ==> ends_with(
                lower@,
                roxy_suffix(),
            ) && lower@.len() >= 6 && s@ == lower@,
    {
        let v = chars_of(lower.as_str());
        let suffix: Vec<char> = vec!['.', 'r', 'o', 'x', 'y'];
        assert(suffix@ =~= roxy_suffix());
        if !ends_with_exec(&v, &suffix) {
            return Err(DomainNameError::InvalidSuffix(lower));
        }
        if v.len() < 6 {
            return Err(DomainNameError::TooShort(lower));
        }
        let n = v.len() - 5;
        let mut i: usize = 0;
        while i < n
            invariant
                v@ == lower@,
                ends_with(v@, roxy_suffix()),
                n == v@.len() - 5,
                i <= n,
                forall|k: int| 0 <= k < i ==> is_name_char(#[trigger] v@[k]),
            decreases n - i,
        {
            let c = v[i];
            if !(is_ascii_alnum_exec(c) || c == '-' || c == '.') {
                return Err(DomainNameError::InvalidCharacters(lower));
            }
            i = i + 1;
        }
        if v[0] == '-' || v[0] == '.' || v[n - 1] == '-' || v[n - 1] == '.' {
            return Err(DomainNameError::InvalidCharacters(lower));
        }
        Ok(DomainName(lower))
    }

    pub fn as_str(&self) -> (r: &str)
        ensures
            r@ == self@,
    {
        self.0.as_str()
    }
}

#[derive(Debug, Clone, PartialEq, Eq, Hash)]
pub enum DomainPattern {
    Exact(DomainName),
    Wildcard(DomainName),
}

impl DomainPattern {
    pub open spec fn base(&self) -> Seq<char> {
        match self {
            DomainPattern::Exact(d) => d@,
            DomainPattern::Wildcard(d) => d@,
        }
    }

    pub open spec fn wildcard(&self) -> bool {
        self is Wildcard
    }

    /// Whether the pattern covers hostname `h`.
    pub open spec fn matches(&self, h: Seq<char>) -> bool {
        match self {
            DomainPattern::Exact(d) => h == d@,
            DomainPattern::Wildcard(d) => h == d@ || one_label_above(h, d@),
        }
    }

    /// Longer bases are more specific.
    pub open spec fn spec_specificity(&self) -> nat {
        self.base().len()
    }

    pub fn from_name(name: &str, wildcard: bool) -> (r: Result<DomainPattern, DomainNameError>)
        ensures
            r is Ok <==> valid_domain(lower_of(name@)),
            r matches Ok(p) ==> p.base() == lower_of(name@) && p.wildcard() == wildcard,
    {
        let domain = DomainName::new(name)?;
        if wildcard {
            Ok(DomainPattern::Wildcard(domain))
        } else {
            Ok(DomainPattern::Exact(domain))
        }
    }

    pub fn base_domain(&self) -> (r: &DomainName)
        ensures
            r@ == self.base(),
    {
        match self {
            DomainPattern::Exact(d) => d,
            DomainPattern::Wildcard(d) => d,
        }
    }

    pub fn is_wildcard(&self) -> (r: bool)
        ensures
            r == self.wildcard(),
    {
        match self {
            DomainPattern::Exact(_) => false,
            DomainPattern::Wildcard(_) => true,
        }
    }

    pub fn matches_hostname(&self, hostname: &str) -> (r: bool)
        ensures
            r == self.matches(hostname@),
    {
        let h = chars_of(hostname);
        match self {
            DomainPattern::Exact(d) => {
                let b = chars_of(d.as_str());
                chars_equal(&h, &b)
            },
            DomainPattern::Wildcard(d) => {
                let b = chars_of(d.as_str());
                if chars_equal(&h, &b) {
                    return true;
                }
                if h.len() <= b.len() || h.len() - b.len() <= 1 {
                    return false;
                }
                if !ends_with_exec(&h, &b) {
                    return false;
                }
                let dot = h.len() - b.len() - 1;
                h[dot] == '.' && free_of_exec(&h, 0, dot, '.')
            },
        }
    }

    /// `base` for an exact pattern, `*.base` for a wildcard.
    pub fn display_pattern(&self) -> (r: String)
        ensures
            r@ == (if self.wildcard() {
                seq!['*', '.'] + self.base()
            } else {
                self.base()
            }),
    {
        let mut out: Vec<char> = Vec::new();
        if self.is_wildcard() {
            out.push('*');
            out.push('.');
        }
        push_str(&mut out, self.base_domain().as_str());
        string_of(&out)
    }

    /// The pattern as displayed; same as `display_pattern`.
    pub fn to_string(&self) -> (r: String)
        ensures
            r@ == (if self.wildcard() {
                seq!['*', '.'] + self.base()
            } else {
                self.base()
            }),
    {
        self.display_pattern()
    }

    /// Stem of the certificate files: `base`, or the wildcard prefix
    /// followed by `base`.
    pub fn cert_name(&self) -> (r: String)
        ensures
            r@ == (if self.wildcard() {
                WILDCARD_CERT_PREFIX@ + self.base()
            } else {
                self.base()
            }),
    {
        let mut out: Vec<char> = Vec::new();
        if self.is_wildcard() {
            push_str(&mut out, WILDCARD_CERT_PREFIX);
        }
        push_str(&mut out, self.base_domain().as_str());
        string_of(&out)
    }

    pub fn specificity(&self) -> (r: usize)
        ensures
            r == self.spec_specificity(),
    {
        chars_of(self.base_domain().as_str()).len()
    }
}

/// A wildcard pattern matches its own base, which is exactly what the exact
/// pattern on the same base matches there; any other name it matches is one
/// non-empty label without dots followed by a dot and the base; and a name
/// with two or more labels above the base is never matched.
pub proof fn lemma_wildcard_matching(d: DomainName, h: Seq<char>)
    ensures
        h == d@ ==> DomainPattern::Wildcard(d).matches(h) && DomainPattern::Exact(d).matches(h),
        DomainPattern::Wildcard(d).matches(h) && h != d@ ==> exists|l: Seq<char>|
            #![trigger l + seq!['.'] + d@]
            l.len() > 0 && !l.contains('.') && h == l + seq!['.'] + d@,
        forall|x: Seq<char>, y: Seq<char>|
            #![trigger x + seq!['.'] + y + seq!['.'] + d@]
            x.len() > 0 && y.len() > 0 ==> !DomainPattern::Wildcard(d).matches(
                x + seq!['.'] + y + seq!['.'] + d@,
            ),
{
    let b = d@;
    if DomainPattern::Wildcard(d).matches(h) && h != b {
        let l = h.subrange(0, h.len() - b.len() - 1);
        assert(h =~= l + seq!['.'] + b);
        assert(!l.contains('.')) by {
            if l.contains('.') {
                let i = choose|i: int| 0 <= i < l.len() && l[i] == '.';
                assert(h[i] == '.');
            }
        }
    }
    assert forall|x: Seq<char>, y: Seq<char>|
        x.len() > 0 && y.len() > 0 implies !DomainPattern::Wildcard(
        d,
    ).matches(#[trigger] (x + seq!['.'] + y + seq!['.'] + b)) by {
        let h2 = x + seq!['.'] + y + seq!['.'] + b;
        assert(h2.len() == x.len() + y.len() + 2 + b.len());
        assert(h2 != b);
        assert(h2[x.len() as int] == '.');
    }
}

} // verus!
