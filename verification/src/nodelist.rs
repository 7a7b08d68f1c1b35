use crate::text::{
    append_chars, bounded_numeral, chars_of, field_end, find_field_end, parse_number, same_text,
    starts_with, string_of, tail_from,
};
use vstd::prelude::*;

verus! {

broadcast use vstd::string::group_string_axioms;

/// One record of the directory: an address of the form
/// `network:zone/primary[.point]`, the owner's display name, and what the
/// directory knows of the owner's chat account.
#[derive(Clone, Debug)]
pub struct Node {
    pub addr: String,
    pub name: String,
    pub telegram_name: Option<String>,
    pub telegram_login: Option<String>,
    pub user_id: i64,
}

/// What a field of an address counts for: its value where it is a numeral
/// that fits a machine word, else zero.
pub open spec fn number_or_zero(s: Seq<char>) -> nat {
    match bounded_numeral(s, usize::MAX as nat) {
        Some(v) => v,
        None => 0,
    }
}

/// The sort key of an address: the primary and the point number.
///
/// The text is cut at every `/` and `.`. Two fields give the primary from
/// the second and point zero; three fields give the primary from the second
/// and the point from the third; any other number of fields gives `(0, 0)`.
pub open spec fn addr_key(s: Seq<char>) -> (nat, nat) {
    let e0 = field_end(s, 0, '/', '.');
    if e0 >= s.len() {
        (0, 0)
    } else {
        let e1 = field_end(s, e0 + 1, '/', '.');
        if e1 >= s.len() {
            (number_or_zero(s.subrange(e0 + 1, s.len() as int)), 0)
        } else {
            let e2 = field_end(s, e1 + 1, '/', '.');
            if e2 >= s.len() {
                (
                    number_or_zero(s.subrange(e0 + 1, e1)),
                    number_or_zero(s.subrange(e1 + 1, s.len() as int)),
                )
            } else {
                (0, 0)
            }
        }
    }
}

/// The order of sort keys: by primary, then by point.
pub open spec fn key_le(a: (nat, nat), b: (nat, nat)) -> bool {
    a.0 < b.0 || (a.0 == b.0 && a.1 <= b.1)
}

/// Strictly before in the order of sort keys.
pub open spec fn key_lt(a: (nat, nat), b: (nat, nat)) -> bool {
    a.0 < b.0 || (a.0 == b.0 && a.1 < b.1)
}

/// Whether the addresses stand in the order of their keys.
pub open spec fn sorted_by_key(s: Seq<Seq<char>>) -> bool {
    forall|i: int, j: int|
        0 <= i < j < s.len() ==> key_le(#[trigger] addr_key(s[i]), #[trigger] addr_key(s[j]))
}

/// Where a new address goes into a list: behind every leading address whose
/// key is not greater than its own.
pub open spec fn insert_pos(s: Seq<Seq<char>>, x: Seq<char>) -> int
    decreases s.len(),
{
    if s.len() == 0 {
        0
    } else if key_le(addr_key(s[0]), addr_key(x)) {
        1 + insert_pos(s.drop_first(), x)
    } else {
        0
    }
}

/// The addresses in the order of their keys; addresses of equal key keep the
/// order in which they came.
pub open spec fn sort_by_key(s: Seq<Seq<char>>) -> Seq<Seq<char>>
    decreases s.len(),
{
    if s.len() == 0 {
        s
    } else {
        let init = sort_by_key(s.drop_last());
        init.insert(insert_pos(init, s.last()), s.last())
    }
}

/// Drops each address that begins with the address kept just before it.
pub open spec fn dedup_points(s: Seq<Seq<char>>) -> Seq<Seq<char>>
    decreases s.len(),
{
    if s.len() == 0 {
        s
    } else {
        let kept = dedup_points(s.drop_last());
        if kept.len() > 0 && kept.last().is_prefix_of(s.last()) {
            kept
        } else {
            kept.push(s.last())
        }
    }
}

/// The address without the prefix, where it begins with it.
pub open spec fn strip_prefix(s: Seq<char>, prefix: Seq<char>) -> Seq<char> {
    if prefix.is_prefix_of(s) {
        s.skip(prefix.len() as int)
    } else {
        s
    }
}

/// The list with the prefix taken off every address but the first.
pub open spec fn strip_rest(s: Seq<Seq<char>>, prefix: Seq<char>) -> Seq<Seq<char>> {
    Seq::new(
        s.len(),
        |i: int|
            if i == 0 {
                s[i]
            } else {
                strip_prefix(s[i], prefix)
            },
    )
}

/// The header followed by each item, each item behind a comma and a space.
pub open spec fn join_items(header: Seq<char>, items: Seq<Seq<char>>) -> Seq<char>
    decreases items.len(),
{
    if items.len() == 0 {
        header
    } else {
        join_items(header, items.drop_last()) + seq![',', ' '] + items.last()
    }
}

/// The address texts of a list of records, in the list's order.
pub open spec fn addresses(list: Seq<Node>) -> Seq<Seq<char>> {
    Seq::new(list.len(), |i: int| list[i].addr@)
}

/// The announcement line of a list of addresses under a header: sorted,
/// points dropped behind their node, the prefix taken off all but the first.
pub open spec fn normalize(header: Seq<char>, addrs: Seq<Seq<char>>, prefix: Seq<char>) -> Seq<
    char,
> {
    join_items(header, strip_rest(dedup_points(sort_by_key(addrs)), prefix))
}

/// What is announced in place of an address line when the directory has no
/// record of the owner.
pub open spec fn empty_list_text() -> Seq<char> {
    "empty directory list"@
}

/// The prefix that `from_nodelist` takes off: network 2, zone 5011.
pub open spec fn home_prefix() -> Seq<char> {
    "2:5011/"@
}

/// The announcement line of a list of records, or the fixed text for an
/// empty list. The header is the first record's display name.
pub open spec fn nodelist_line(list: Seq<Node>, prefix: Seq<char>) -> Seq<char> {
    if list.len() == 0 {
        empty_list_text()
    } else {
        normalize(list[0].name@, addresses(list), prefix)
    }
}

/// The views of a vector of character vectors.
pub open spec fn texts(v: Seq<Vec<char>>) -> Seq<Seq<char>> {
    Seq::new(v.len(), |i: int| v[i]@)
}

/// What the field of `s` from `from` up to `to` counts for.
fn field_number(s: &Vec<char>, from: usize, to: usize) -> (r: usize)
    requires
        from <= to <= s.len(),
    ensures
        r == number_or_zero(s@.subrange(from as int, to as int)),
{
    match parse_number(s, from, to, usize::MAX as u64) {
        Some(v) => v as usize,
        None => 0,
    }
}

/// The sort key of an address given by its characters.
pub fn key_of(s: &Vec<char>) -> (r: (usize, usize))
    ensures
        r.0 == addr_key(s@).0,
        r.1 == addr_key(s@).1,
{
    let n: usize = s.len();
    let e0: usize = find_field_end(s, 0, '/', '.');
    if e0 >= n {
        return (0, 0);
    }
    let e1: usize = find_field_end(s, e0 + 1, '/', '.');
    if e1 >= n {
        return (field_number(s, e0 + 1, n), 0);
    }
    let e2: usize = find_field_end(s, e1 + 1, '/', '.');
    if e2 >= n {
        (field_number(s, e0 + 1, e1), field_number(s, e1 + 1, n))
    } else {
        (0, 0)
    }
}

/// Whether key `a` is not greater than key `b`.
pub fn key_not_after(a: (usize, usize), b: (usize, usize)) -> (r: bool)
    ensures
        r == key_le((a.0 as nat, a.1 as nat), (b.0 as nat, b.1 as nat)),
{
    a.0 < b.0 || (a.0 == b.0 && a.1 <= b.1)
}

impl Node {
    /// The primary and the point number of this record's address.
    pub fn addr_struct(&self) -> (r: (usize, usize))
        ensures
            r.0 == addr_key(self.addr@).0,
            r.1 == addr_key(self.addr@).1,
    {
        let s = chars_of(self.addr.as_str());
        key_of(&s)
    }

    /// Whether this record does not sort behind `other`.
    pub fn not_after(&self, other: &Node) -> (r: bool)
        ensures
            r == key_le(addr_key(self.addr@), addr_key(other.addr@)),
    {
        key_not_after(self.addr_struct(), other.addr_struct())
    }

    /// Whether the two records have the same address text.
    pub fn same_addr(&self, other: &Node) -> (r: bool)
        ensures
            r == (self.addr@ == other.addr@),
    {
        same_text(self.addr.as_str(), other.addr.as_str())
    }
}

/// Puts one more address into a list behind every leading address whose key
/// is not greater than its own.
pub fn insert_address(list: &mut Vec<Vec<char>>, a: Vec<char>)
    ensures
        texts(final(list)@) == texts(old(list)@).insert(insert_pos(texts(old(list)@), a@), a@),
{
    let key = key_of(&a);
    let ghost all = texts(list@);
    let mut p: usize = 0;
    assert(all.skip(0) =~= all);
    while p < list.len() && key_not_after(key_of(&list[p]), key)
        invariant
            p <= list.len(),
            all == texts(list@),
            list@ == old(list)@,
            key.0 == addr_key(a@).0,
            key.1 == addr_key(a@).1,
            insert_pos(all, a@) == p + insert_pos(all.skip(p as int), a@),
        decreases list.len() - p,
    {
        assert(all.skip(p as int)[0] == list@[p as int]@);
        assert(all.skip(p as int).drop_first() =~= all.skip(p + 1));
        p = p + 1;
    }
    proof {
        if p < list.len() {
            assert(all.skip(p as int)[0] == list@[p as int]@);
        } else {
            assert(all.skip(p as int).len() == 0);
        }
    }
    list.insert(p, a);
    assert(texts(list@) =~= all.insert(p as int, a@));
}

/// The line for addresses that are already sorted, under the header `name`:
/// points dropped behind their node, the prefix taken off all but the first
/// address kept, everything joined with a comma and a space.
pub fn render_line(name: &str, sorted: &Vec<Vec<char>>, prefix: &Vec<char>) -> (out: Vec<char>)
    ensures
        out@ == join_items(name@, strip_rest(dedup_points(texts(sorted@)), prefix@)),
{
    let mut out = chars_of(name);
    let mut kept: usize = 0;
    let mut last: usize = 0;
    let ghost all = texts(sorted@);
    let mut i: usize = 0;
    assert(dedup_points(all.take(0)) =~= Seq::<Seq<char>>::empty());
    while i < sorted.len()
        invariant
            i <= sorted.len(),
            all == texts(sorted@),
            kept == dedup_points(all.take(i as int)).len(),
            kept <= i,
            kept > 0 ==> last < i && dedup_points(all.take(i as int)).last() == all[last as int],
            out@ == join_items(name@, strip_rest(dedup_points(all.take(i as int)), prefix@)),
        decreases sorted.len() - i,
    {
        let ghost before = dedup_points(all.take(i as int));
        proof {
            assert(all.take(i + 1).drop_last() =~= all.take(i as int));
            assert(all.take(i + 1).last() == all[i as int]);
        }
        if kept > 0 && starts_with(&sorted[i], &sorted[last]) {
        } else {
            let ghost head = out@;
            out.push(',');
            out.push(' ');
            if kept > 0 && starts_with(&sorted[i], prefix) {
                let t = tail_from(&sorted[i], prefix.len());
                append_chars(&mut out, &t);
            } else {
                append_chars(&mut out, &sorted[i]);
            }
            proof {
                let after = before.push(all[i as int]);
                let item = if kept == 0 {
                    all[i as int]
                } else {
                    strip_prefix(all[i as int], prefix@)
                };
                assert(strip_rest(after, prefix@).drop_last() =~= strip_rest(before, prefix@));
                assert(strip_rest(after, prefix@).last() == item);
                assert(out@ =~= head + seq![',', ' '] + item);
            }
            last = i;
            kept = kept + 1;
        }
        i = i + 1;
    }
    assert(all.take(sorted.len() as int) =~= all);
    out
}

/// The announcement line of a list of directory records.
///
/// An empty list gives the fixed text `empty_list_text()`. Otherwise the
/// header is the first record's display name; the addresses are sorted by
/// primary and point number, an address that begins with the one kept before
/// it is dropped, `prefix` is taken off every address kept but the first,
/// and header and addresses are joined with a comma and a space.
pub fn from_nodelist_with_prefix(nodelist: &Vec<Node>, prefix: &str) -> (line: String)
    ensures
        line@ == nodelist_line(nodelist@, prefix@),
{
    if nodelist.len() == 0 {
        return "empty directory list".to_owned();
    }
    let ghost addrs = addresses(nodelist@);
    let mut sorted: Vec<Vec<char>> = Vec::new();
    let mut i: usize = 0;
    assert(texts(sorted@) =~= sort_by_key(addrs.take(0)));
    while i < nodelist.len()
        invariant
            i <= nodelist.len(),
            addrs == addresses(nodelist@),
            texts(sorted@) == sort_by_key(addrs.take(i as int)),
        decreases nodelist.len() - i,
    {
        let a = chars_of(nodelist[i].addr.as_str());
        proof {
            assert(addrs.take(i + 1).drop_last() =~= addrs.take(i as int));
            assert(addrs.take(i + 1).last() == a@);
        }
        insert_address(&mut sorted, a);
        i = i + 1;
    }
    assert(addrs.take(nodelist.len() as int) =~= addrs);
    let p = chars_of(prefix);
    let out = render_line(nodelist[0].name.as_str(), &sorted, &p);
    string_of(&out)
}

/// The announcement line of a list of directory records, with the prefix of
/// the home network taken off all addresses but the first.
pub fn from_nodelist(nodelist: Vec<Node>) -> (line: String)
    ensures
        line@ == nodelist_line(nodelist@, home_prefix()),
{
    from_nodelist_with_prefix(&nodelist, "2:5011/")
}

/// `insert_pos` lies in the list, has only keys not greater than the new one
/// before it, and stands at a greater key unless it is the list's end.
pub proof fn lemma_insert_pos(s: Seq<Seq<char>>, x: Seq<char>)
    ensures
        0 <= insert_pos(s, x) <= s.len(),
        forall|j: int|
            0 <= j < insert_pos(s, x) ==> key_le(#[trigger] addr_key(s[j]), addr_key(x)),
        insert_pos(s, x) < s.len() ==> !key_le(addr_key(s[insert_pos(s, x)]), addr_key(x)),
    decreases s.len(),
{
    if s.len() > 0 && key_le(addr_key(s[0]), addr_key(x)) {
        let rest = s.drop_first();
        lemma_insert_pos(rest, x);
        assert forall|j: int| 0 <= j < insert_pos(s, x) implies key_le(
            #[trigger] addr_key(s[j]),
            addr_key(x),
        ) by {
            if j > 0 {
                assert(s[j] == rest[j - 1]);
            }
        }
        if insert_pos(s, x) < s.len() {
            assert(s[insert_pos(s, x)] == rest[insert_pos(rest, x)]);
        }
    }
}

/// The sorted list stands in the order of its keys.
pub proof fn lemma_sort_by_key_sorted(s: Seq<Seq<char>>)
    ensures
        sorted_by_key(sort_by_key(s)),
        sort_by_key(s).len() == s.len(),
    decreases s.len(),
{
    if s.len() > 0 {
        let init = sort_by_key(s.drop_last());
        let x = s.last();
        let p = insert_pos(init, x);
        lemma_sort_by_key_sorted(s.drop_last());
        lemma_insert_pos(init, x);
        let t = init.insert(p, x);
        assert forall|i: int, j: int| 0 <= i < j < t.len() implies key_le(
            #[trigger] addr_key(t[i]),
            #[trigger] addr_key(t[j]),
        ) by {
            if j < p {
                assert(t[i] == init[i] && t[j] == init[j]);
            } else if j == p {
                assert(t[i] == init[i]);
            } else if i < p {
                assert(t[i] == init[i] && t[j] == init[j - 1]);
                if p < j - 1 {
                    assert(key_le(addr_key(init[p]), addr_key(init[j - 1])));
                }
            } else if i == p {
                assert(t[j] == init[j - 1]);
                if p < j - 1 {
                    assert(key_le(addr_key(init[p]), addr_key(init[j - 1])));
                }
            } else {
                assert(t[i] == init[i - 1] && t[j] == init[j - 1]);
            }
        }
    }
}

/// The sorted list holds the addresses of the list it was made from, each as
/// often as that list holds it.
pub proof fn lemma_sort_by_key_permutes(s: Seq<Seq<char>>)
    ensures
        sort_by_key(s).to_multiset() == s.to_multiset(),
    decreases s.len(),
{
    broadcast use vstd::seq_lib::group_to_multiset_ensures;

    if s.len() > 0 {
        let init = sort_by_key(s.drop_last());
        let x = s.last();
        lemma_sort_by_key_permutes(s.drop_last());
        lemma_insert_pos(init, x);
        vstd::seq_lib::to_multiset_insert(init, insert_pos(init, x), x);
        assert(s.drop_last().push(x) =~= s);
    }
}

/// The test that picks the addresses of key `k`.
pub open spec fn has_key(k: (nat, nat)) -> spec_fn(Seq<char>) -> bool {
    |x: Seq<char>| addr_key(x) == k
}

/// Sorting keeps the addresses of each key in the order in which they came:
/// picked out of the sorted list they read as picked out of the list itself.
pub proof fn law_sort_keeps_order_within_key(s: Seq<Seq<char>>, k: (nat, nat))
    ensures
        sort_by_key(s).filter(has_key(k)) == s.filter(has_key(k)),
    decreases s.len(),
{
    if s.len() > 0 {
        let init = s.drop_last();
        let x = s.last();
        let a = sort_by_key(init);
        let p = insert_pos(a, x);
        let f = has_key(k);
        law_sort_keeps_order_within_key(init, k);
        lemma_sort_by_key_sorted(init);
        lemma_insert_pos(a, x);
        let front = a.take(p);
        let back = a.skip(p);
        assert(a =~= front + back);
        assert(a.insert(p, x) =~= front.push(x) + back);
        assert(init.push(x) =~= s);
        Seq::filter_distributes_over_add(front, back, f);
        Seq::filter_distributes_over_add(front.push(x), back, f);
        front.lemma_filter_push(x, f);
        init.lemma_filter_push(x, f);
        if addr_key(x) == k {
            assert forall|j: int| 0 <= j < back.len() implies !f(#[trigger] back[j]) by {
                assert(back[j] == a[p + j]);
                if j > 0 {
                    assert(key_le(addr_key(a[p]), addr_key(a[p + j])));
                }
            }
            assert(back.all(|y: Seq<char>| !f(y)));
            back.lemma_all_neg_filter_empty(f);
            assert(back.filter(f) =~= Seq::<Seq<char>>::empty());
            assert(front.filter(f) + back.filter(f) =~= front.filter(f));
            assert(front.filter(f).push(x) + back.filter(f) =~= front.filter(f).push(x));
        }
    }
}

/// Two lists in the order of their keys that hold the same addresses equally
/// often are the same list, where no two different addresses share a key.
pub proof fn lemma_sorted_unique(x: Seq<Seq<char>>, y: Seq<Seq<char>>)
    requires
        sorted_by_key(x),
        sorted_by_key(y),
        x.to_multiset() == y.to_multiset(),
        forall|i: int, j: int|
            0 <= i < x.len() && 0 <= j < x.len() && #[trigger] addr_key(x[i]) == #[trigger] addr_key(
                x[j],
            ) ==> x[i] == x[j],
    ensures
        x == y,
    decreases x.len(),
{
    broadcast use vstd::multiset::group_multiset_axioms;
    broadcast use vstd::seq_lib::group_to_multiset_ensures;

    assert(x.to_multiset().len() == x.len() && y.to_multiset().len() == y.len());
    if x.len() > 0 {
        assert(x.to_multiset().contains(x[0]));
        assert(y.to_multiset().contains(y[0]));
        let i = choose|i: int| 0 <= i < x.len() && x[i] == y[0];
        let j = choose|j: int| 0 <= j < y.len() && y[j] == x[0];
        assert(key_le(addr_key(x[0]), addr_key(x[i])));
        assert(key_le(addr_key(y[0]), addr_key(y[j])));
        assert(addr_key(x[0]) == addr_key(x[i]));
        assert(x[0] == y[0]);
        vstd::seq_lib::to_multiset_remove(x, 0);
        vstd::seq_lib::to_multiset_remove(y, 0);
        assert(x.remove(0) =~= x.drop_first());
        assert(y.remove(0) =~= y.drop_first());
        let xs = x.drop_first();
        let ys = y.drop_first();
        assert forall|i: int, j: int|
            0 <= i < xs.len() && 0 <= j < xs.len() && #[trigger] addr_key(xs[i])
                == #[trigger] addr_key(xs[j]) implies xs[i] == xs[j] by {
            assert(xs[i] == x[i + 1] && xs[j] == x[j + 1]);
        }
        assert forall|i: int, j: int| 0 <= i < j < xs.len() implies key_le(
            #[trigger] addr_key(xs[i]),
            #[trigger] addr_key(xs[j]),
        ) by {
            assert(xs[i] == x[i + 1] && xs[j] == x[j + 1]);
        }
        assert forall|i: int, j: int| 0 <= i < j < ys.len() implies key_le(
            #[trigger] addr_key(ys[i]),
            #[trigger] addr_key(ys[j]),
        ) by {
            assert(ys[i] == y[i + 1] && ys[j] == y[j + 1]);
        }
        lemma_sorted_unique(xs, ys);
        assert(x =~= seq![x[0]] + xs);
        assert(y =~= seq![y[0]] + ys);
    }
}

/// Where every address of a list begins with the list's first address, only
/// that first address is kept.
pub proof fn lemma_dedup_keeps_the_node(s: Seq<Seq<char>>)
    requires
        s.len() > 0,
        forall|i: int| 0 <= i < s.len() ==> s[0].is_prefix_of(#[trigger] s[i]),
    ensures
        dedup_points(s) == seq![s[0]],
    decreases s.len(),
{
    if s.len() == 1 {
        assert(dedup_points(s.drop_last()) =~= Seq::<Seq<char>>::empty());
        assert(dedup_points(s) =~= seq![s[0]]);
    } else {
        let init = s.drop_last();
        assert forall|i: int| 0 <= i < init.len() implies init[0].is_prefix_of(
            #[trigger] init[i],
        ) by {
            assert(init[i] == s[i]);
        }
        lemma_dedup_keeps_the_node(init);
        assert(s[0].is_prefix_of(s[s.len() - 1]));
    }
}

/// A node with its points gives one entry.
///
/// Where one record of the list holds an address with which every other
/// record's address begins, and whose key lies before every other record's
/// key, the line is the first record's display name, a comma and a space,
/// and that one address: nothing is left of the points, wherever in the
/// list the node stood.
pub proof fn law_points_collapse_into_node(list: Seq<Node>, k: int, prefix: Seq<char>)
    requires
        0 <= k < list.len(),
        forall|i: int|
            0 <= i < list.len() && i != k ==> list[k].addr@.is_prefix_of(#[trigger] list[i].addr@)
                && key_lt(addr_key(list[k].addr@), addr_key(list[i].addr@)),
    ensures
        dedup_points(sort_by_key(addresses(list))) == seq![list[k].addr@],
        nodelist_line(list, prefix) == list[0].name@ + seq![',', ' '] + list[k].addr@,
{
    broadcast use vstd::multiset::group_multiset_axioms;
    broadcast use vstd::seq_lib::group_to_multiset_ensures;

    let s = addresses(list);
    let t = sort_by_key(s);
    let node = list[k].addr@;
    lemma_sort_by_key_sorted(s);
    lemma_sort_by_key_permutes(s);
    assert(s[k] == node);
    assert(s.to_multiset().contains(node));
    assert(t.to_multiset().contains(node));
    let q = choose|q: int| 0 <= q < t.len() && t[q] == node;
    assert(t.to_multiset().contains(t[0]));
    assert(s.to_multiset().contains(t[0]));
    let m = choose|m: int| 0 <= m < s.len() && s[m] == t[0];
    if m != k {
        assert(node.is_prefix_of(list[m].addr@));
        assert(key_lt(addr_key(node), addr_key(t[0])));
        if q > 0 {
            assert(key_le(addr_key(t[0]), addr_key(t[q])));
        }
        assert(false);
    }
    assert(t[0] == node);
    assert forall|i: int| 0 <= i < t.len() implies t[0].is_prefix_of(#[trigger] t[i]) by {
        assert(t.to_multiset().contains(t[i]));
        assert(s.to_multiset().contains(t[i]));
        let n = choose|n: int| 0 <= n < s.len() && s[n] == t[i];
        if n != k {
            assert(node.is_prefix_of(list[n].addr@));
        } else {
            assert(node.is_prefix_of(node));
        }
    }
    lemma_dedup_keeps_the_node(t);
    let kept = seq![node];
    assert(strip_rest(kept, prefix) =~= kept);
    assert(kept.drop_last() =~= Seq::<Seq<char>>::empty());
    assert(join_items(list[0].name@, kept) == join_items(list[0].name@, kept.drop_last()) + seq![
        ',',
        ' ',
    ] + kept.last());
}

/// The order of the records does not matter.
///
/// Two lists that hold the same addresses equally often, and whose first
/// records bear the same display name, give the same line, where no two
/// different addresses of the list share a sort key. (Addresses of equal key
/// keep the order in which they came, so without that the order shows.)
pub proof fn law_reordering_keeps_line(a: Seq<Node>, b: Seq<Node>, prefix: Seq<char>)
    requires
        addresses(a).to_multiset() == addresses(b).to_multiset(),
        a.len() > 0 && b.len() > 0 ==> a[0].name@ == b[0].name@,
        forall|i: int, j: int|
            0 <= i < a.len() && 0 <= j < a.len() && #[trigger] addr_key(a[i].addr@)
                == #[trigger] addr_key(a[j].addr@) ==> a[i].addr@ == a[j].addr@,
    ensures
        sort_by_key(addresses(a)) == sort_by_key(addresses(b)),
        nodelist_line(a, prefix) == nodelist_line(b, prefix),
{
    broadcast use vstd::multiset::group_multiset_axioms;
    broadcast use vstd::seq_lib::group_to_multiset_ensures;

    let s = addresses(a);
    let x = sort_by_key(s);
    let y = sort_by_key(addresses(b));
    assert(s.to_multiset().len() == s.len());
    assert(addresses(b).to_multiset().len() == addresses(b).len());
    lemma_sort_by_key_sorted(s);
    lemma_sort_by_key_sorted(addresses(b));
    lemma_sort_by_key_permutes(s);
    lemma_sort_by_key_permutes(addresses(b));
    assert forall|i: int, j: int|
        0 <= i < x.len() && 0 <= j < x.len() && #[trigger] addr_key(x[i]) == #[trigger] addr_key(
            x[j],
        ) implies x[i] == x[j] by {
        assert(x.to_multiset().contains(x[i]));
        assert(x.to_multiset().contains(x[j]));
        assert(s.to_multiset().contains(x[i]));
        assert(s.to_multiset().contains(x[j]));
        let m = choose|m: int| 0 <= m < s.len() && s[m] == x[i];
        let n = choose|n: int| 0 <= n < s.len() && s[n] == x[j];
        assert(addr_key(a[m].addr@) == addr_key(a[n].addr@));
    }
    lemma_sorted_unique(x, y);
}

/// Lists that hold the same records equally often hold the same addresses
/// equally often.
pub proof fn lemma_addresses_of_reordering(a: Seq<Node>, b: Seq<Node>)
    requires
        a.to_multiset() == b.to_multiset(),
    ensures
        addresses(a).to_multiset() == addresses(b).to_multiset(),
    decreases a.len(),
{
    broadcast use vstd::multiset::group_multiset_axioms;
    broadcast use vstd::seq_lib::group_to_multiset_ensures;

    assert(a.to_multiset().len() == a.len() && b.to_multiset().len() == b.len());
    if a.len() == 0 {
        assert(addresses(a) =~= addresses(b));
    } else {
        let last = a.len() - 1;
        let x = a[last];
        assert(a.to_multiset().contains(x));
        assert(b.to_multiset().contains(x));
        let j = choose|j: int| 0 <= j < b.len() && b[j] == x;
        vstd::seq_lib::to_multiset_remove(a, last);
        vstd::seq_lib::to_multiset_remove(b, j);
        lemma_addresses_of_reordering(a.remove(last), b.remove(j));
        let ma = addresses(a).to_multiset();
        let mb = addresses(b).to_multiset();
        assert(addresses(a.remove(last)) =~= addresses(a).remove(last));
        assert(addresses(b.remove(j)) =~= addresses(b).remove(j));
        vstd::seq_lib::to_multiset_remove(addresses(a), last);
        vstd::seq_lib::to_multiset_remove(addresses(b), j);
        assert(addresses(a)[last] == x.addr@ && addresses(b)[j] == x.addr@);
        assert(ma.remove(x.addr@) == mb.remove(x.addr@));
        assert(ma.contains(x.addr@) && mb.contains(x.addr@));
        assert(ma =~= ma.remove(x.addr@).insert(x.addr@));
        assert(mb =~= mb.remove(x.addr@).insert(x.addr@));
    }
}

/// The line of a list of records is the line of any reordering of it.
///
/// Take two lists that hold the same records equally often, all under one
/// display name, and no two different addresses with the same sort key.
/// Then both give the same line.
pub proof fn law_reordered_records_give_same_line(a: Seq<Node>, b: Seq<Node>, prefix: Seq<char>)
    requires
        a.to_multiset() == b.to_multiset(),
        forall|i: int, j: int|
            0 <= i < a.len() && 0 <= j < a.len() ==> (#[trigger] a[i]).name@ == (#[trigger] a[j]).name@,
        forall|i: int, j: int|
            0 <= i < a.len() && 0 <= j < a.len() && #[trigger] addr_key(a[i].addr@)
                == #[trigger] addr_key(a[j].addr@) ==> a[i].addr@ == a[j].addr@,
    ensures
        nodelist_line(a, prefix) == nodelist_line(b, prefix),
{
    broadcast use vstd::multiset::group_multiset_axioms;
    broadcast use vstd::seq_lib::group_to_multiset_ensures;

    lemma_addresses_of_reordering(a, b);
    assert(a.to_multiset().len() == a.len() && b.to_multiset().len() == b.len());
    if b.len() > 0 {
        assert(b.to_multiset().contains(b[0]));
        assert(a.to_multiset().contains(b[0]));
        let m = choose|m: int| 0 <= m < a.len() && a[m] == b[0];
        assert(a[m].name@ == a[0].name@);
    }
    law_reordering_keeps_line(a, b, prefix);
}

} // verus!
