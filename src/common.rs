use vstd::prelude::*;

verus! {

/// Whether `c` is an ASCII decimal digit.
pub open spec fn is_digit(c: char) -> bool {
    '0' <= c && c <= '9'
}

/// The number written by the decimal digits `d`, most significant first.
pub open spec fn digits_value(d: Seq<char>) -> int
    decreases d.len(),
{
    if d.len() == 0 {
        0
    } else {
        digits_value(d.drop_last()) * 10 + (d.last() as int - '0' as int)
    }
}

/// The text that `u8`'s `FromStr` accepts: an optional `+`, then one or more
/// decimal digits (leading zeros allowed) whose value is at most 255.
pub open spec fn is_octet(s: Seq<char>) -> bool {
    &&& unsigned_digits(s).len() > 0
    &&& forall|i: int| 0 <= i < unsigned_digits(s).len() ==> is_digit(#[trigger] unsigned_digits(s)[i])
    &&& digits_value(unsigned_digits(s)) <= 255
}

/// `s` without one leading `+`.
pub open spec fn unsigned_digits(s: Seq<char>) -> Seq<char> {
    if s.len() > 0 && s[0] == '+' {
        s.drop_first()
    } else {
        s
    }
}

/// `s` cut at every `.`; a string with `n` dots has `n + 1` fields.
pub open spec fn dot_fields(s: Seq<char>) -> Seq<Seq<char>>
    decreases s.len(),
{
    if s.len() == 0 {
        seq![Seq::<char>::empty()]
    } else {
        let r = dot_fields(s.drop_last());
        if s.last() == '.' {
            r.push(Seq::<char>::empty())
        } else {
            r.update(r.len() - 1, r.last().push(s.last()))
        }
    }
}

/// A dotted-quad IPv4 address: exactly four dot-separated fields, each an octet.
pub open spec fn valid_ipv4(s: Seq<char>) -> bool {
    &&& dot_fields(s).len() == 4
    &&& forall|i: int| 0 <= i < 4 ==> is_octet(#[trigger] dot_fields(s)[i])
}

proof fn lemma_dot_fields_nonempty(s: Seq<char>)
    ensures
        dot_fields(s).len() >= 1,
    decreases s.len(),
{
    if s.len() > 0 {
        lemma_dot_fields_nonempty(s.drop_last());
    }
}

/// Checks whether `s[start..end]` is an octet.
fn check_octet(s: &str, start: usize, end: usize) -> (r: bool)
    requires
        start <= end <= s@.len(),
    ensures
        r == is_octet(s@.subrange(start as int, end as int)),
{
    let ghost f = s@.subrange(start as int, end as int);
    let mut i = start;
    if i < end && s.get_char(i) == '+' {
        i = i + 1;
    }
    let ghost d = s@.subrange(i as int, end as int);
    assert(d == unsigned_digits(f));
    let first = i;
    let mut all_digits = true;
    let mut value: u32 = 0;
    while i < end
        invariant
            start <= first <= i <= end <= s@.len(),
            f == s@.subrange(start as int, end as int),
            d == s@.subrange(first as int, end as int),
            d == unsigned_digits(f),
            all_digits == (forall|k: int| 0 <= k < i - first ==> is_digit(#[trigger] d[k])),
            value <= 256,
            all_digits && value <= 255 ==> value == digits_value(d.take(i - first)),
            all_digits && value == 256 ==> digits_value(d.take(i - first)) > 255,
        decreases end - i,
    {
        let c = s.get_char(i);
        let ghost p = d.take(i - first);
        let ghost q = d.take(i + 1 - first);
        assert(q.drop_last() == p);
        assert(q.last() == c);
        if '0' <= c && c <= '9' {
            let digit = (c as u32) - ('0' as u32);
            if value <= 255 {
                value = value * 10 + digit;
                if value > 255 {
                    value = 256;
                }
            }
        } else {
            all_digits = false;
        }
        i = i + 1;
    }
    assert(d.take(end - first) == d);
    assert(d.len() == end - first);
    proof {
        if !all_digits {
            let k = choose|k: int| 0 <= k < d.len() && !is_digit(d[k]);
            assert(!is_digit(d[k]));
        } else if value <= 255 {
            assert(value == digits_value(d));
        } else {
            assert(digits_value(d) > 255);
        }
    }
    first < end && all_digits && value <= 255
}

/// Checks whether `ip` is a valid IPv4 address: four dot-separated octets 0–255.
pub fn is_ip_valid(ip: &str) -> (r: bool)
    ensures
        r == valid_ipv4(ip@),
{
    let n = ip.unicode_len();
    let mut i: usize = 0;
    let mut dots: usize = 0;
    let mut field_start: usize = 0;
    let mut all_ok = true;
    proof {
        assert(ip@.take(0) == Seq::<char>::empty());
    }
    while i < n
        invariant
            n == ip@.len(),
            field_start <= i <= n,
            dots <= i,
            dot_fields(ip@.take(i as int)).len() == dots + 1,
            dot_fields(ip@.take(i as int))[dots as int] == ip@.subrange(field_start as int, i as int),
            all_ok == (forall|k: int| 0 <= k < dots && k < 4 ==> is_octet(#[trigger] dot_fields(ip@.take(i as int))[k])),
        decreases n - i,
    {
        let c = ip.get_char(i);
        let ghost before = ip@.take(i as int);
        let ghost after = ip@.take(i + 1);
        assert(after.drop_last() == before);
        assert(after.last() == c);
        if c == '.' {
            let ghost old_ok = all_ok;
            if dots < 4 {
                let ok = check_octet(ip, field_start, i);
                all_ok = all_ok && ok;
            }
            assert(dot_fields(after) == dot_fields(before).push(Seq::<char>::empty()));
            assert forall|k: int| 0 <= k < dots + 1 && k < 4 implies is_octet(#[trigger] dot_fields(after)[k]) == is_octet(dot_fields(before)[k]) by {}
            proof {
            if all_ok {
                assert forall|k: int| 0 <= k < dots + 1 && k < 4 implies is_octet(#[trigger] dot_fields(after)[k]) by {
                    if k < dots {
                        assert(is_octet(dot_fields(before)[k]));
                    }
                }
            } else if old_ok {
                assert(!is_octet(dot_fields(after)[dots as int]));
            } else {
                let k = choose|k: int| 0 <= k < dots && k < 4 && !is_octet(dot_fields(before)[k]);
                assert(!is_octet(dot_fields(after)[k]));
            }
            }
            dots = dots + 1;
            field_start = i + 1;
            assert(ip@.subrange(field_start as int, i + 1) == Seq::<char>::empty());
        } else {
            assert(ip@.subrange(field_start as int, i + 1) == ip@.subrange(field_start as int, i as int).push(c));
            assert(dot_fields(after) == dot_fields(before).update(dots as int, dot_fields(before)[dots as int].push(c)));
            assert forall|k: int| 0 <= k < dots && k < 4 implies #[trigger] dot_fields(after)[k] == dot_fields(before)[k] by {}
            proof {
                if !all_ok {
                    let k = choose|k: int| 0 <= k < dots && k < 4 && !is_octet(dot_fields(before)[k]);
                    assert(!is_octet(dot_fields(after)[k]));
                }
            }
        }
        i = i + 1;
    }
    assert(ip@.take(n as int) == ip@);
    if dots != 3 || !all_ok {
        return false;
    }
    check_octet(ip, field_start, n)
}

/// The most recent requests of one client, oldest first, holding at most
/// `limit` entries: pushing onto a full list drops its oldest entry.
pub struct PreviousRequestsList {
    list: Vec<String>,
    limit: usize,
}

impl View for PreviousRequestsList {
    type V = Seq<Seq<char>>;

    closed spec fn view(&self) -> Seq<Seq<char>> {
        self.list@.map_values(|r: String| r@)
    }
}

/// `h` with `item` appended, then its oldest entry dropped if it holds more than `limit`.
pub open spec fn bounded_push(h: Seq<Seq<char>>, item: Seq<char>, limit: nat) -> Seq<Seq<char>> {
    if h.len() + 1 > limit {
        h.push(item).drop_first()
    } else {
        h.push(item)
    }
}

impl PreviousRequestsList {
    #[verifier::type_invariant]
    spec fn within_limit(&self) -> bool {
        self.list.len() <= self.limit
    }

    /// The number of entries the list keeps.
    pub closed spec fn limit(&self) -> nat {
        self.limit as nat
    }

    /// The number of entries the list keeps.
    pub fn limit_value(&self) -> (r: usize)
        ensures
            r == self.limit(),
    {
        self.limit
    }

    /// The number of entries held, never more than the limit.
    pub fn len(&self) -> (r: usize)
        ensures
            r == self@.len(),
            r <= self.limit(),
    {
        proof {
            use_type_invariant(self);
        }
        self.list.len()
    }

    /// An empty list that keeps at most `limit` entries.
    pub fn new(limit: usize) -> (r: Self)
        ensures
            r@ == Seq::<Seq<char>>::empty(),
            r.limit() == limit,
    {
        let r = PreviousRequestsList { list: Vec::new(), limit };
        assert(r@ =~= Seq::<Seq<char>>::empty());
        r
    }

    /// A list with limit `limit` holding the last `limit` entries of `items`,
    /// as if they had been pushed in order.
    pub fn from_parts(items: Vec<String>, limit: usize) -> (r: Self)
        ensures
            r.limit() == limit,
            r@ == (if items@.len() > limit {
                items@.map_values(|s: String| s@).subrange(items@.len() - limit, items@.len() as int)
            } else {
                items@.map_values(|s: String| s@)
            }),
    {
        let ghost all = items@.map_values(|s: String| s@);
        let n = items.len();
        let skip: usize = if n > limit { n - limit } else { 0 };
        let mut list: Vec<String> = Vec::new();
        let mut i = skip;
        while i < n
            invariant
                skip <= i <= n,
                n == items@.len(),
                all == items@.map_values(|s: String| s@),
                n - skip <= limit,
                list@.map_values(|s: String| s@) == all.subrange(skip as int, i as int),
            decreases n - i,
        {
            list.push(items[i].clone());
            assert(all.subrange(skip as int, i + 1) == all.subrange(skip as int, i as int).push(all[i as int]));
            assert(list@.map_values(|s: String| s@) =~= all.subrange(skip as int, i + 1));
            i = i + 1;
        }
        assert(all.subrange(0, n as int) == all);
        PreviousRequestsList { list, limit }
    }

    /// The entries, oldest first.
    pub fn get_list(&self) -> (r: &Vec<String>)
        ensures
            r@.map_values(|s: String| s@) == self@,
            self@.len() <= self.limit(),
    {
        proof {
            use_type_invariant(self);
        }
        &self.list
    }

    /// The `index`-th oldest entry, if there is one.
    pub fn get(&self, index: usize) -> (r: Option<&String>)
        ensures
            index < self@.len() <==> r is Some,
            r matches Some(s) ==> s@ == self@[index as int],
    {
        if index < self.list.len() {
            Some(&self.list[index])
        } else {
            None
        }
    }

    /// Appends `request`; if that makes the list longer than its limit, the
    /// oldest entry is dropped.
    pub fn push(&mut self, request: &str)
        ensures
            final(self).limit() == old(self).limit(),
            final(self)@ == bounded_push(old(self)@, request@, old(self).limit()),
            final(self)@.len() <= final(self).limit(),
    {
        proof {
            use_type_invariant(&*self);
        }
        let ghost before = self.list@.map_values(|s: String| s@);
        if self.limit == 0 {
            assert(before.push(request@).drop_first() =~= before);
            return;
        }
        let mut list: Vec<String> = Vec::new();
        std::mem::swap(&mut list, &mut self.list);
        if list.len() == self.limit {
            list.remove(0);
        }
        list.push(request.to_string());
        assert(list@.map_values(|s: String| s@) =~= bounded_push(before, request@, self.limit as nat));
        self.list = list;
    }
}

} // verus!
