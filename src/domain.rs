use vstd::prelude::*;

verus! {

/// A character that may not appear anywhere in an address.
pub open spec fn is_blank(c: char) -> bool {
    c == ' ' || c == '\t' || c == '\n' || c == '\r'
}

/// A domain: non-empty, holding a dot, and neither starting nor ending with one.
pub open spec fn is_valid_domain(d: Seq<char>) -> bool {
    &&& d.len() > 0
    &&& d[0] != '.'
    &&& d[d.len() - 1] != '.'
    &&& d.contains('.')
}

/// `s` reads `local@domain` with its only `@` at index `at`, a non-empty local
/// part, a valid domain and no blank character.
pub open spec fn splits_at(s: Seq<char>, at: int) -> bool {
    &&& 0 < at < s.len()
    &&& s[at] == '@'
    &&& forall|j: int| 0 <= j < s.len() && j != at ==> s[j] != '@'
    &&& forall|j: int| 0 <= j < s.len() ==> !is_blank(#[trigger] s[j])
    &&& is_valid_domain(s.subrange(at + 1, s.len() as int))
}

/// The addresses that a subscriber may be sent mail at.
pub open spec fn is_valid_email(s: Seq<char>) -> bool {
    exists|at: int| splits_at(s, at)
}

/// The message that rejects `s` as an address.
pub open spec fn invalid_email_message(s: Seq<char>) -> Seq<char> {
    s + " is not a valid subscriber email."@
}

/// An address that has passed validation.
pub struct SubscriberEmail {
    value: String,
}

/// The first index at or after `from` where `s` holds `c`.
fn find_char(s: &str, c: char, from: usize) -> (r: Option<usize>)
    requires
        from <= s@.len(),
    ensures
        match r {
            Some(p) => from <= p < s@.len() && s@[p as int] == c && forall|j: int|
                from <= j < p ==> s@[j] != c,
            None => forall|j: int| from <= j < s@.len() ==> s@[j] != c,
        },
{
    let n = s.unicode_len();
    let mut i: usize = from;
    while i < n
        invariant
            from <= i <= n,
            n == s@.len(),
            forall|j: int| from <= j < i ==> s@[j] != c,
        decreases n - i,
    {
        if s.get_char(i) == c {
            return Some(i);
        }
        i = i + 1;
    }
    None
}

/// Whether `s` holds a blank character.
fn has_blank(s: &str) -> (r: bool)
    ensures
        r == exists|j: int| 0 <= j < s@.len() && is_blank(#[trigger] s@[j]),
{
    let n = s.unicode_len();
    let mut i: usize = 0;
    while i < n
        invariant
            i <= n,
            n == s@.len(),
            forall|j: int| 0 <= j < i ==> !is_blank(#[trigger] s@[j]),
        decreases n - i,
    {
        let c = s.get_char(i);
        if c == ' ' || c == '\t' || c == '\n' || c == '\r' {
            assert(is_blank(s@[i as int]));
            return true;
        }
        i = i + 1;
    }
    false
}

/// Whether `s` is a valid address.
fn check_email(s: &str) -> (r: bool)
    ensures
        r == is_valid_email(s@),
{
    let n = s.unicode_len();
    if has_blank(s) {
        proof {
            let j = choose|j: int| 0 <= j < s@.len() && is_blank(#[trigger] s@[j]);
            assert forall|at: int| !splits_at(s@, at) by {
                if splits_at(s@, at) {
                    assert(!is_blank(s@[j]));
                }
            }
        }
        return false;
    }
    let first = find_char(s, '@', 0);
    match first {
        None => {
            assert forall|at: int| !splits_at(s@, at) by {
                if splits_at(s@, at) {
                    assert(s@[at] == '@');
                }
            }
            false
        },
        Some(p) => {
            let second = find_char(s, '@', p + 1);
            if let Some(q) = second {
                assert forall|at: int| !splits_at(s@, at) by {
                    if splits_at(s@, at) {
                        assert(s@[p as int] == '@' && s@[q as int] == '@');
                    }
                }
                return false;
            }
            // Every candidate split falls on `p`, the only `@`.
            assert forall|at: int| splits_at(s@, at) implies at == p by {
                assert(s@[p as int] == '@');
            }
            let ghost d = s@.subrange(p + 1, n as int);
            if p == 0 || p + 1 >= n {
                assert(!splits_at(s@, p as int));
                return false;
            }
            let head = s.get_char(p + 1);
            let last = s.get_char(n - 1);
            let dot = find_char(s, '.', p + 1);
            assert(d[0] == head && d[d.len() - 1] == last);
            let ok = head != '.' && last != '.' && dot.is_some();
            if let Some(k) = dot {
                assert(d[k - p - 1] == '.');
            } else {
                assert forall|i: int| 0 <= i < d.len() implies d[i] != '.' by {
                    assert(d[i] == s@[p + 1 + i]);
                }
            }
            assert(ok == splits_at(s@, p as int));
            ok
        },
    }
}

impl SubscriberEmail {
    pub closed spec fn view(&self) -> Seq<char> {
        self.value@
    }

    /// Accepts `s` as an address exactly when it is valid; the error names it.
    pub fn parse(s: String) -> (r: Result<SubscriberEmail, String>)
        ensures
            r matches Ok(e) ==> is_valid_email(s@) && e.view() == s@,
            r matches Err(m) ==> !is_valid_email(s@) && m@ == invalid_email_message(s@),
            r is Ok <==> is_valid_email(s@),
    {
        if check_email(s.as_str()) {
            Ok(SubscriberEmail { value: s })
        } else {
            let m = s.concat(" is not a valid subscriber email.");
            Err(m)
        }
    }

    /// The address as text.
    pub fn as_str(&self) -> (r: &str)
        ensures
            r@ == self.view(),
    {
        self.value.as_str()
    }
}

} // verus!
