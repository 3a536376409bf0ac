//! Compound keys: heterogeneous lists of keys, the first of which group
//! the rest.
use vstd::prelude::*;

use crate::key::{Prefixed, PrefixedKey, UuidKey};
use crate::text::{signed_decimal, signed_decimal_string, decimal, decimal_string};
use crate::uuid_gen::uuid_text;

verus! {

/// A key made of several keys, kept as a heterogeneous list.
#[derive(Clone, Copy, PartialEq, Eq, Debug)]
pub struct ConsKey<Keys> {
    keys: Keys,
}

/// The compound key of a tuple of keys.
pub type CompoundKey<Keys> = ConsKey<<Keys as IntoKeysList>::List>;

impl<Keys> ConsKey<Keys> {
    /// The list of keys this key is made of.
    pub closed spec fn keys_view(&self) -> Keys {
        self.keys
    }

    /// The compound key of the keys in the tuple `keys`, in order.
    pub fn new<I: IntoKeysList<List = Keys>>(keys: I) -> (r: Self)
        ensures
            r.keys_view() == keys.spec_into_list(),
    {
        ConsKey { keys: keys.into_list() }
    }
}

/// Compound keys are equal exactly when they hold the same keys.
pub proof fn lemma_cons_key_equal<Keys>(a: ConsKey<Keys>, b: ConsKey<Keys>)
    ensures
        a.keys_view() == b.keys_view() <==> a == b,
{
}

impl<Head> ConsKey<HCons<Head, HNil>> {
    /// The compound key made of the single key `head`.
    pub fn of(head: Head) -> (r: Self)
        ensures
            r.keys_view() == HCons(head, HNil),
    {
        ConsKey { keys: HNil.cons(head) }
    }
}

impl<PrefixKeys, Keys> Prefixed<ConsKey<PrefixKeys>> for ConsKey<Keys> where
    Keys: HListSplit<PrefixKeys> + Copy,
 {
    /// The compound key made of the first keys of this one: some list of
    /// keys follows them to make up this key.
    fn prefix(&self) -> (r: ConsKey<PrefixKeys>)
        ensures
            r.keys_view() == self.keys_view().spec_left(),
            exists|right: Keys::Right| Keys::spec_join(r.keys_view(), right) == self.keys_view(),
    {
        let keys = self.keys;
        let (left, right) = keys.split();
        let r = ConsKey { keys: left };
        assert(Keys::spec_join(r.keys_view(), right) == self.keys_view());
        r
    }
}

impl<Keys: DisplayList> ConsKey<Keys> {
    /// "(k1, k2, ...)" with each key in its display form.
    pub fn to_display_string(&self) -> (r: String)
        ensures
            r@ == seq!['('] + join_items(self.keys_view().spec_items(), true) + seq![')'],
    {
        let mut s = String::from_str("(");
        proof {
            reveal_strlit("(");
            reveal_strlit(")");
        }
        self.keys.push_items(&mut s, true);
        s.append(")");
        s
    }
}

// ======================================
// => Heterogeneous lists
// ======================================
/// A heterogeneous list: `HNil` or `HCons` of a head and a list.
pub trait HList: Sized {
    /// The list with `head` in front of this one.
    fn cons<Head>(self, head: Head) -> (r: HCons<Head, Self>)
        ensures
            r == HCons(head, self),
    {
        HCons(head, self)
    }
}

/// The empty list.
#[derive(Clone, Copy, Debug, PartialEq, Eq)]
pub struct HNil;

/// A list with a head in front of a tail list.
#[derive(Clone, Copy, Debug, PartialEq, Eq)]
pub struct HCons<Head, Tail>(pub Head, pub Tail);

impl HList for HNil {

}

impl<Head, Tail> HList for HCons<Head, Tail> {

}

/// Splitting a list into a front part of type `Left` and the rest.
pub trait HListSplit<Left>: Sized {
    /// The type of what follows the front part.
    type Right;

    /// The list made of `left` followed by `right`.
    spec fn spec_join(left: Left, right: Self::Right) -> Self;

    /// The front part of this list.
    spec fn spec_left(self) -> Left;

    /// Splits this list into its front part and the rest; joined again they
    /// give this list.
    fn split(self) -> (r: (Left, Self::Right))
        ensures
            Self::spec_join(r.0, r.1) == self,
            r.0 == self.spec_left(),
    ;
}

impl<Head, Tail> HListSplit<HNil> for HCons<Head, Tail> {
    type Right = Self;

    open spec fn spec_join(left: HNil, right: Self) -> Self {
        right
    }

    open spec fn spec_left(self) -> HNil {
        HNil
    }

    fn split(self) -> (r: (HNil, Self)) {
        (HNil, self)
    }
}

impl<Head, Rest, Tail> HListSplit<HCons<Head, Rest>> for HCons<Head, Tail> where
    Tail: HListSplit<Rest>,
    Rest: HList,
 {
    type Right = Tail::Right;

    open spec fn spec_join(left: HCons<Head, Rest>, right: Tail::Right) -> Self {
        HCons(left.0, Tail::spec_join(left.1, right))
    }

    open spec fn spec_left(self) -> HCons<Head, Rest> {
        HCons(self.0, self.1.spec_left())
    }

    fn split(self) -> (r: (HCons<Head, Rest>, Tail::Right)) {
        let HCons(head, tail) = self;
        let (left, right) = tail.split();
        (left.cons(head), right)
    }
}

/// Conversion of a tuple of keys into a list of keys.
pub trait IntoKeysList: Sized {
    /// The list type of the tuple.
    type List: HList;

    /// The list with the tuple's elements, in order.
    spec fn spec_into_list(self) -> Self::List;

    /// The list with the tuple's elements, in order.
    fn into_list(self) -> (r: Self::List)
        ensures
            r == self.spec_into_list(),
    ;
}

impl IntoKeysList for () {
    type List = HNil;

    open spec fn spec_into_list(self) -> HNil {
        HNil
    }

    fn into_list(self) -> (r: HNil) {
        HNil
    }
}

impl<A> IntoKeysList for (A,) where (): IntoKeysList {
    type List = HCons<A, <() as IntoKeysList>::List>;

    open spec fn spec_into_list(self) -> Self::List {
        HCons(self.0, ().spec_into_list())
    }

    fn into_list(self) -> (r: Self::List) {
        let (a,) = self;
        ().into_list().cons(a)
    }
}

impl<A, B> IntoKeysList for (A, B) where (B,): IntoKeysList {
    type List = HCons<A, <(B,) as IntoKeysList>::List>;

    open spec fn spec_into_list(self) -> Self::List {
        HCons(self.0, (self.1,).spec_into_list())
    }

    fn into_list(self) -> (r: Self::List) {
        let (a, b) = self;
        (b,).into_list().cons(a)
    }
}

impl<A, B, C> IntoKeysList for (A, B, C) where (B, C): IntoKeysList {
    type List = HCons<A, <(B, C) as IntoKeysList>::List>;

    open spec fn spec_into_list(self) -> Self::List {
        HCons(self.0, (self.1, self.2).spec_into_list())
    }

    fn into_list(self) -> (r: Self::List) {
        let (a, b, c) = self;
        (b, c).into_list().cons(a)
    }
}

impl<A, B, C, D> IntoKeysList for (A, B, C, D) where (B, C, D): IntoKeysList {
    type List = HCons<A, <(B, C, D) as IntoKeysList>::List>;

    open spec fn spec_into_list(self) -> Self::List {
        HCons(self.0, (self.1, self.2, self.3).spec_into_list())
    }

    fn into_list(self) -> (r: Self::List) {
        let (a, b, c, d) = self;
        (b, c, d).into_list().cons(a)
    }
}

impl<A, B, C, D, E> IntoKeysList for (A, B, C, D, E) where (B, C, D, E): IntoKeysList {
    type List = HCons<A, <(B, C, D, E) as IntoKeysList>::List>;

    open spec fn spec_into_list(self) -> Self::List {
        HCons(self.0, (self.1, self.2, self.3, self.4).spec_into_list())
    }

    fn into_list(self) -> (r: Self::List) {
        let (a, b, c, d, e) = self;
        (b, c, d, e).into_list().cons(a)
    }
}

impl<A, B, C, D, E, F> IntoKeysList for (A, B, C, D, E, F) where (B, C, D, E, F): IntoKeysList {
    type List = HCons<A, <(B, C, D, E, F) as IntoKeysList>::List>;

    open spec fn spec_into_list(self) -> Self::List {
        HCons(self.0, (self.1, self.2, self.3, self.4, self.5).spec_into_list())
    }

    fn into_list(self) -> (r: Self::List) {
        let (a, b, c, d, e, f) = self;
        (b, c, d, e, f).into_list().cons(a)
    }
}

impl<A, B, C, D, E, F, G> IntoKeysList for (A, B, C, D, E, F, G) where (B, C, D, E, F, G): IntoKeysList {
    type List = HCons<A, <(B, C, D, E, F, G) as IntoKeysList>::List>;

    open spec fn spec_into_list(self) -> Self::List {
        HCons(self.0, (self.1, self.2, self.3, self.4, self.5, self.6).spec_into_list())
    }

    fn into_list(self) -> (r: Self::List) {
        let (a, b, c, d, e, f, g) = self;
        (b, c, d, e, f, g).into_list().cons(a)
    }
}

impl<A, B, C, D, E, F, G, H> IntoKeysList for (A, B, C, D, E, F, G, H) where (B, C, D, E, F, G, H): IntoKeysList {
    type List = HCons<A, <(B, C, D, E, F, G, H) as IntoKeysList>::List>;

    open spec fn spec_into_list(self) -> Self::List {
        HCons(self.0, (self.1, self.2, self.3, self.4, self.5, self.6, self.7).spec_into_list())
    }

    fn into_list(self) -> (r: Self::List) {
        let (a, b, c, d, e, f, g, h) = self;
        (b, c, d, e, f, g, h).into_list().cons(a)
    }
}

impl<A, B, C, D, E, F, G, H, I> IntoKeysList for (A, B, C, D, E, F, G, H, I) where (B, C, D, E, F, G, H, I): IntoKeysList {
    type List = HCons<A, <(B, C, D, E, F, G, H, I) as IntoKeysList>::List>;

    open spec fn spec_into_list(self) -> Self::List {
        HCons(self.0, (self.1, self.2, self.3, self.4, self.5, self.6, self.7, self.8).spec_into_list())
    }

    fn into_list(self) -> (r: Self::List) {
        let (a, b, c, d, e, f, g, h, i) = self;
        (b, c, d, e, f, g, h, i).into_list().cons(a)
    }
}

impl<A, B, C, D, E, F, G, H, I, J> IntoKeysList for (A, B, C, D, E, F, G, H, I, J) where (B, C, D, E, F, G, H, I, J): IntoKeysList {
    type List = HCons<A, <(B, C, D, E, F, G, H, I, J) as IntoKeysList>::List>;

    open spec fn spec_into_list(self) -> Self::List {
        HCons(self.0, (self.1, self.2, self.3, self.4, self.5, self.6, self.7, self.8, self.9).spec_into_list())
    }

    fn into_list(self) -> (r: Self::List) {
        let (a, b, c, d, e, f, g, h, i, j) = self;
        (b, c, d, e, f, g, h, i, j).into_list().cons(a)
    }
}

// ======================================
// => Display
// ======================================
/// `items` written one after another, each preceded by ", " except the
/// first when `first` is set.
pub open spec fn join_items(items: Seq<Seq<char>>, first: bool) -> Seq<char>
    decreases items.len(),
{
    if items.len() == 0 {
        Seq::empty()
    } else {
        (if first {
            Seq::empty()
        } else {
            seq![',', ' ']
        }) + items[0] + join_items(items.drop_first(), false)
    }
}

/// A key with a display form.
pub trait KeyDisplay {
    /// The display form of the key.
    spec fn spec_display(&self) -> Seq<char>;

    /// The display form of the key.
    fn display_string(&self) -> (r: String)
        ensures
            r@ == self.spec_display(),
    ;
}

impl KeyDisplay for i32 {
    open spec fn spec_display(&self) -> Seq<char> {
        signed_decimal(*self as int)
    }

    fn display_string(&self) -> (r: String) {
        signed_decimal_string(*self as i64)
    }
}

impl KeyDisplay for i64 {
    open spec fn spec_display(&self) -> Seq<char> {
        signed_decimal(*self as int)
    }

    fn display_string(&self) -> (r: String) {
        signed_decimal_string(*self)
    }
}

impl KeyDisplay for u64 {
    open spec fn spec_display(&self) -> Seq<char> {
        decimal(*self as nat)
    }

    fn display_string(&self) -> (r: String) {
        decimal_string(*self)
    }
}

impl<T> KeyDisplay for UuidKey<T> {
    open spec fn spec_display(&self) -> Seq<char> {
        uuid_text(self@)
    }

    fn display_string(&self) -> (r: String) {
        self.to_display_string()
    }
}

impl<Prefix, T> KeyDisplay for PrefixedKey<Prefix, T> {
    open spec fn spec_display(&self) -> Seq<char> {
        seq!['('] + uuid_text(self.prefix_view()) + seq![',', ' '] + uuid_text(self.suffix_view())
            + seq![')']
    }

    fn display_string(&self) -> (r: String) {
        self.to_display_string()
    }
}

/// A list of keys that can be written one after another.
pub trait DisplayList {
    /// The display forms of the keys, in order.
    spec fn spec_items(&self) -> Seq<Seq<char>>;

    /// Appends the display forms of the keys to `out`, separated by ", ",
    /// with a separator before the first one too unless `first` is set.
    fn push_items(&self, out: &mut String, first: bool)
        ensures
            final(out)@ == old(out)@ + join_items(self.spec_items(), first),
    ;
}

impl DisplayList for HNil {
    open spec fn spec_items(&self) -> Seq<Seq<char>> {
        Seq::empty()
    }

    fn push_items(&self, out: &mut String, first: bool) {
        assert(old(out)@ + join_items(self.spec_items(), first) =~= old(out)@);
    }
}

impl<Head: KeyDisplay, Tail: DisplayList> DisplayList for HCons<Head, Tail> {
    open spec fn spec_items(&self) -> Seq<Seq<char>> {
        seq![self.0.spec_display()] + self.1.spec_items()
    }

    fn push_items(&self, out: &mut String, first: bool) {
        let ghost start = out@;
        if !first {
            out.append(", ");
            proof {
                reveal_strlit(", ");
            }
        }
        let head = self.0.display_string();
        out.append(head.as_str());
        self.1.push_items(out, false);
        proof {
            let items = self.spec_items();
            assert(items.drop_first() =~= self.1.spec_items());
            assert(start + join_items(items, first) =~= out@);
        }
    }
}

} // verus!
