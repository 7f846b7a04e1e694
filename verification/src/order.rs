//! Stable sorting by keys.

use vstd::prelude::*;

use crate::text::to_chars;

verus! {

/// A key by which things are put in order. Two keys may be neither before
/// nor after each other.
pub trait SortKey: Sized {
    /// This key comes before the other.
    spec fn before(self, other: Self) -> bool;

    proof fn before_is_asymmetric(a: Self, b: Self)
        ensures
            !(a.before(b) && b.before(a)),
    ;

    /// What is not before a key is before nothing that the key is not before
    /// either.
    proof fn not_before_is_transitive(a: Self, b: Self, c: Self)
        requires
            !b.before(a),
            !c.before(b),
        ensures
            !c.before(a),
    ;

    fn is_before(&self, other: &Self) -> (r: bool)
        ensures
            r == self.before(*other),
    ;
}

/// Position `i` comes before position `j`: by its key, or, where the keys do
/// not tell, by its place.
pub open spec fn comes_first<K: SortKey>(keys: Seq<K>, i: int, j: int) -> bool {
    keys[i].before(keys[j]) || (!keys[j].before(keys[i]) && i < j)
}

/// `order` lists every position of `keys` once, in the order of the keys;
/// positions that the keys do not tell apart stay as they were.
pub open spec fn is_stable_order<K: SortKey>(keys: Seq<K>, order: Seq<usize>) -> bool {
    &&& order.len() == keys.len()
    &&& forall|i: int| 0 <= i < order.len() ==> (#[trigger] order[i]) < keys.len()
    &&& forall|i: int, j: int|
        0 <= i < j < order.len() ==> comes_first(
            keys,
            #[trigger] order[i] as int,
            #[trigger] order[j] as int,
        )
}

/// `order` is a stable order of the first `n` positions.
spec fn is_stable_prefix<K: SortKey>(keys: Seq<K>, order: Seq<usize>, n: int) -> bool {
    &&& order.len() == n
    &&& forall|i: int| 0 <= i < order.len() ==> (#[trigger] order[i]) < n
    &&& forall|i: int, j: int|
        0 <= i < j < order.len() ==> comes_first(
            keys,
            #[trigger] order[i] as int,
            #[trigger] order[j] as int,
        )
}

proof fn lemma_insert<K: SortKey>(keys: Seq<K>, order: Seq<usize>, n: usize, p: int)
    requires
        n < keys.len(),
        is_stable_prefix(keys, order, n as int),
        0 <= p <= order.len(),
        p > 0 ==> !keys[n as int].before(keys[order[p - 1] as int]),
        p < order.len() ==> keys[n as int].before(keys[order[p] as int]),
    ensures
        is_stable_prefix(keys, order.insert(p, n), n + 1),
{
    let after = order.insert(p, n);
    assert forall|i: int, j: int| 0 <= i < j < after.len() implies comes_first(
        keys,
        #[trigger] after[i] as int,
        #[trigger] after[j] as int,
    ) by {
        let ki = keys[after[i] as int];
        let kj = keys[after[j] as int];
        let kn = keys[n as int];
        if j == p {
            // `order[i]` lies in front of the new position.
            assert(after[i] == order[i]);
            let kl = keys[order[p - 1] as int];
            if i < p - 1 {
                assert(comes_first(keys, order[i] as int, order[p - 1] as int));
                K::before_is_asymmetric(ki, kl);
                K::not_before_is_transitive(ki, kl, kn);
            }
        } else if i == p {
            assert(after[j] == order[j - 1]);
            let kf = keys[order[p] as int];
            if j - 1 > p {
                assert(comes_first(keys, order[p] as int, order[j - 1] as int));
                K::before_is_asymmetric(kf, kj);
                if !kn.before(kj) {
                    K::not_before_is_transitive(kf, kj, kn);
                }
            }
        } else {
            let a = if i < p {
                i
            } else {
                i - 1
            };
            let b = if j < p {
                j
            } else {
                j - 1
            };
            assert(after[i] == order[a]);
            assert(after[j] == order[b]);
            assert(comes_first(keys, order[a] as int, order[b] as int));
        }
    }
}

/// The order in which the positions of `keys` come when sorted.
pub fn stable_order<K: SortKey>(keys: &Vec<K>) -> (order: Vec<usize>)
    ensures
        is_stable_order(keys@, order@),
{
    let mut order: Vec<usize> = Vec::new();
    let mut n: usize = 0;
    while n < keys.len()
        invariant
            n <= keys@.len(),
            is_stable_prefix(keys@, order@, n as int),
        decreases keys@.len() - n,
    {
        let mut p: usize = order.len();
        while p > 0 && keys[n].is_before(&keys[order[p - 1]])
            invariant
                n < keys@.len(),
                is_stable_prefix(keys@, order@, n as int),
                p <= order@.len(),
                p < order@.len() ==> keys@[n as int].before(keys@[order@[p as int] as int]),
            decreases p,
        {
            p -= 1;
        }
        proof {
            lemma_insert(keys@, order@, n, p as int);
        }
        order.insert(p, n);
        n += 1;
    }
    order
}

/// A stable order holds no position twice.
pub proof fn lemma_order_is_injective<K: SortKey>(keys: Seq<K>, order: Seq<usize>)
    requires
        is_stable_order(keys, order),
    ensures
        order.no_duplicates(),
{
    assert forall|i: int, j: int| 0 <= i < order.len() && 0 <= j < order.len() && i != j implies order[i]
        != order[j] by {
        let (a, b) = if i < j {
            (i, j)
        } else {
            (j, i)
        };
        assert(comes_first(keys, order[a] as int, order[b] as int));
        K::before_is_asymmetric(keys[order[a] as int], keys[order[b] as int]);
    }
}

/// Every position occurs in a stable order.
pub proof fn lemma_order_is_complete<K: SortKey>(keys: Seq<K>, order: Seq<usize>, k: int)
    requires
        is_stable_order(keys, order),
        0 <= k < keys.len(),
    ensures
        exists|i: int| 0 <= i < order.len() && #[trigger] order[i] == k,
{
    lemma_order_is_injective(keys, order);
    let positions = order.map_values(|u: usize| u as int);
    assert(positions.no_duplicates());
    assert forall|x: int| positions.to_set().contains(x) implies vstd::set_lib::set_int_range(
        0,
        keys.len() as int,
    ).contains(x) by {
        let i = choose|i: int| 0 <= i < positions.len() && positions[i] == x;
        assert(order[i] < keys.len());
    }
    positions.unique_seq_to_set();
    vstd::set_lib::lemma_int_range(0, keys.len() as int);
    vstd::set_lib::lemma_subset_equality(
        positions.to_set(),
        vstd::set_lib::set_int_range(0, keys.len() as int),
    );
    assert(positions.to_set().contains(k));
    let i = choose|i: int| 0 <= i < positions.len() && positions[i] == k;
    assert(order[i] == k);
}

// ------------------------------------------------------------- strings as keys

/// `a` comes before `b` in the order of their characters: at the first place
/// where they differ its character is the smaller, or it ends there.
pub open spec fn text_before(a: Seq<char>, b: Seq<char>) -> bool
    decreases a.len(),
{
    if b.len() == 0 {
        false
    } else if a.len() == 0 {
        true
    } else if a[0] != b[0] {
        a[0] < b[0]
    } else {
        text_before(a.skip(1), b.skip(1))
    }
}

proof fn lemma_text_asymmetric(a: Seq<char>, b: Seq<char>)
    ensures
        !(text_before(a, b) && text_before(b, a)),
    decreases a.len(),
{
    if a.len() > 0 && b.len() > 0 && a[0] == b[0] {
        lemma_text_asymmetric(a.skip(1), b.skip(1));
    }
}

proof fn lemma_text_not_before(a: Seq<char>, b: Seq<char>, c: Seq<char>)
    requires
        !text_before(b, a),
        !text_before(c, b),
    ensures
        !text_before(c, a),
    decreases a.len(),
{
    if a.len() > 0 && b.len() > 0 && c.len() > 0 && a[0] == b[0] && b[0] == c[0] {
        lemma_text_not_before(a.skip(1), b.skip(1), c.skip(1));
    }
}

/// Texts of which neither comes before the other are equal.
pub proof fn lemma_text_total(a: Seq<char>, b: Seq<char>)
    requires
        !text_before(a, b),
        !text_before(b, a),
    ensures
        a == b,
    decreases a.len(),
{
    if a.len() > 0 && b.len() > 0 {
        lemma_text_total(a.skip(1), b.skip(1));
        assert(a =~= seq![a[0]] + a.skip(1));
        assert(b =~= seq![b[0]] + b.skip(1));
    } else {
        assert(a =~= b);
    }
}

/// `a` comes before `b` in the order of their characters.
pub fn is_text_before(a: &str, b: &str) -> (r: bool)
    ensures
        r == text_before(a@, b@),
{
    let x = to_chars(a);
    let y = to_chars(b);
    let mut i: usize = 0;
    assert(x@.skip(0) =~= x@);
    assert(y@.skip(0) =~= y@);
    while i < x.len() && i < y.len()
        invariant
            x@ == a@,
            y@ == b@,
            i <= x@.len(),
            i <= y@.len(),
            text_before(x@, y@) == text_before(x@.skip(i as int), y@.skip(i as int)),
        decreases x@.len() - i,
    {
        if x[i] != y[i] {
            return x[i] < y[i];
        }
        assert(x@.skip(i as int).skip(1) =~= x@.skip(i + 1));
        assert(y@.skip(i as int).skip(1) =~= y@.skip(i + 1));
        i += 1;
    }
    i < y.len()
}

/// A name, in the order of its characters.
pub struct NameKey {
    pub name: String,
}

impl SortKey for NameKey {
    open spec fn before(self, other: Self) -> bool {
        text_before(self.name@, other.name@)
    }

    proof fn before_is_asymmetric(a: Self, b: Self) {
        lemma_text_asymmetric(a.name@, b.name@);
    }

    proof fn not_before_is_transitive(a: Self, b: Self, c: Self) {
        lemma_text_not_before(a.name@, b.name@, c.name@);
    }

    fn is_before(&self, other: &Self) -> bool {
        is_text_before(self.name.as_str(), other.name.as_str())
    }
}

/// A file by its age: the newest first, and of files of one age the one with
/// the greater name first.
pub struct AgeKey {
    pub modified: i128,
    pub name: String,
}

impl SortKey for AgeKey {
    open spec fn before(self, other: Self) -> bool {
        self.modified > other.modified || (self.modified == other.modified && text_before(
            other.name@,
            self.name@,
        ))
    }

    proof fn before_is_asymmetric(a: Self, b: Self) {
        lemma_text_asymmetric(a.name@, b.name@);
    }

    proof fn not_before_is_transitive(a: Self, b: Self, c: Self) {
        if a.modified == b.modified && b.modified == c.modified {
            lemma_text_not_before(c.name@, b.name@, a.name@);
        }
    }

    fn is_before(&self, other: &Self) -> bool {
        self.modified > other.modified || (self.modified == other.modified && is_text_before(
            other.name.as_str(),
            self.name.as_str(),
        ))
    }
}

/// Three numbers, compared one after the other.
pub struct PlaceKey {
    pub column: u32,
    pub tile: u32,
    pub id: u64,
}

impl SortKey for PlaceKey {
    open spec fn before(self, other: Self) -> bool {
        ||| self.column < other.column
        ||| self.column == other.column && self.tile < other.tile
        ||| self.column == other.column && self.tile == other.tile && self.id < other.id
    }

    proof fn before_is_asymmetric(a: Self, b: Self) {
    }

    proof fn not_before_is_transitive(a: Self, b: Self, c: Self) {
    }

    fn is_before(&self, other: &Self) -> bool {
        self.column < other.column || (self.column == other.column && (self.tile < other.tile || (
        self.tile == other.tile && self.id < other.id)))
    }
}

} // verus!
