//! Small fixed-size vectors with component-wise arithmetic.
//!
//! The operators take a vector, an array of the same length, or one scalar
//! that is applied to every component. Each asks of its operands what the
//! component type's own operator asks (no overflow, no division by zero), and
//! gives the components that the component type's operator gives.

use vstd::prelude::*;
use vstd::array::array_fill_for_copy_types;
use vstd::std_specs::convert::FromSpecImpl;
use vstd::std_specs::ops::AddSpec;
use vstd::std_specs::ops::AddSpecImpl;
use vstd::std_specs::ops::DivSpec;
use vstd::std_specs::ops::DivSpecImpl;
use vstd::std_specs::ops::MulSpec;
use vstd::std_specs::ops::MulSpecImpl;
use vstd::std_specs::ops::NegSpec;
use vstd::std_specs::ops::NegSpecImpl;
use vstd::std_specs::ops::RemSpec;
use vstd::std_specs::ops::RemSpecImpl;
use vstd::std_specs::ops::SubSpec;
use vstd::std_specs::ops::SubSpecImpl;
use vstd::string::StringExecFns;
use vstd::string::to_string_from_display_ensures;

use std::fmt::Display;
use std::ops::Add;
use std::ops::Deref;
use std::ops::Div;
use std::ops::Mul;
use std::ops::Neg;
use std::ops::Rem;
use std::ops::Sub;

verus! {

/// A vector of `N` components.
#[derive(Debug, Copy, Clone, PartialEq, Eq)]
pub struct Vector<T, const N: usize>(pub(crate) [T; N]);

/// A vector of two components: `x`, then `y`.
pub type Vector2<T> = Vector<T, 2>;

impl<T, const N: usize> View for Vector<T, N> {
    type V = Seq<T>;

    closed spec fn view(&self) -> Seq<T> {
        self.0@
    }
}

impl<T: Copy + Default, const N: usize> Default for Vector<T, N> {
    /// The vector whose every component is the default of its type.
    fn default() -> (out: Self)
        ensures
            out@.len() == N,
            forall|i: int| 0 <= i < N ==> call_ensures(T::default, (), #[trigger] out@[i]),
    {
        Vector(array_fill_for_copy_types(T::default()))
    }
}

impl<T, const N: usize> From<[T; N]> for Vector<T, N> {
    /// The vector of the given components.
    fn from(value: [T; N]) -> (out: Self)
        ensures
            out@ == value@,
    {
        Vector(value)
    }
}

impl<T, const N: usize> FromSpecImpl<[T; N]> for Vector<T, N> {
    open spec fn obeys_from_spec() -> bool {
        true
    }

    closed spec fn from_spec(value: [T; N]) -> Self {
        Vector(value)
    }
}

impl<T: Copy + Default, const N: usize> Vector<T, N> {
    /// The vector whose every component is the default of its type.
    pub fn new() -> (out: Self)
        ensures
            out@.len() == N,
            forall|i: int| 0 <= i < N ==> call_ensures(T::default, (), #[trigger] out@[i]),
    {
        Vector(array_fill_for_copy_types(T::default()))
    }
}

impl<T, const N: usize> Vector<T, N> {
    /// The components, in order.
    #[must_use]
    pub fn into_inner(self) -> (inner: [T; N])
        ensures
            inner@ == self@,
    {
        self.0
    }

    /// A vector has as many components as its type says.
    pub proof fn lemma_len(self)
        ensures
            self@.len() == N,
    {
    }
}

impl<T, const N: usize> Deref for Vector<T, N> {
    type Target = [T; N];

    /// The components, in order, as an array.
    fn deref(&self) -> (inner: &[T; N])
        ensures
            inner@ == self@,
    {
        &self.0
    }
}

/// The vector with the given components, where there are `N` of them.
pub open spec fn with_components<T, const N: usize>(components: Seq<T>) -> Vector<T, N> {
    choose|vector: Vector<T, N>| vector@ == components
}

/// A vector is what its components are: two vectors with the same components
/// are the same, and a vector is the one with its components.
pub proof fn lemma_view_decides<T, const N: usize>(one: Vector<T, N>, other: Vector<T, N>)
    ensures
        one@ == other@ ==> one == other,
        one == with_components::<T, N>(one@),
{
    if one@ == other@ {
        assert(one.0@ =~= other.0@);
        assert(one.0 =~= other.0);
    }
    let chosen = with_components::<T, N>(one@);
    assert(chosen@ == one@);
    assert(chosen.0@ =~= one.0@);
    assert(chosen.0 =~= one.0);
}

/// Texts in a row, parted by a comma and a space.
pub open spec fn listed(items: Seq<Seq<char>>) -> Seq<char>
    decreases items.len(),
{
    if items.len() == 0 {
        Seq::empty()
    } else if items.len() == 1 {
        items[0]
    } else {
        listed(items.drop_last()) + seq![',', ' '] + items.last()
    }
}

/// Texts as a list in square brackets: `[a, b, c]`.
pub open spec fn bracketed(items: Seq<Seq<char>>) -> Seq<char> {
    seq!['['] + listed(items) + seq![']']
}

impl<T: Display, const N: usize> Vector<T, N> {
    /// The vector as text: the texts that its components display as, in
    /// order, parted by commas, in square brackets.
    pub fn to_string(&self) -> (text: String)
        ensures
            exists|items: Seq<String>|
                {
                    &&& items.len() == N
                    &&& forall|i: int|
                        0 <= i < N ==> to_string_from_display_ensures::<T>(
                            &self@[i],
                            #[trigger] items[i],
                        )
                    &&& text@ == bracketed(items.map_values(|item: String| item@))
                },
    {
        let mut text = String::from_str("[");
        let ghost mut items: Seq<String> = Seq::empty();
        proof {
            reveal_strlit("[");
            reveal_strlit(", ");
            reveal_strlit("]");
            assert(text@ =~= seq!['['] + listed(items.map_values(|item: String| item@)));
        }
        let mut i: usize = 0;
        while i < N
            invariant
                i <= N,
                self@.len() == N,
                items.len() == i,
                forall|j: int|
                    0 <= j < i ==> to_string_from_display_ensures::<T>(
                        &self@[j],
                        #[trigger] items[j],
                    ),
                text@ == seq!['['] + listed(items.map_values(|item: String| item@)),
            decreases N - i,
        {
            let item = self.0[i].to_string();
            if i > 0 {
                text.append(", ");
            }
            text.append(item.as_str());
            proof {
                let before = items.map_values(|item: String| item@);
                items = items.push(item);
                let after = items.map_values(|item: String| item@);
                assert(after.drop_last() =~= before);
                assert(after.last() == item@);
                reveal_strlit(", ");
                assert(", "@ =~= seq![',', ' ']);
                assert(text@ =~= seq!['['] + listed(after));
            }
            i += 1;
        }
        text.append("]");
        proof {
            reveal_strlit("]");
            assert(text@ =~= bracketed(items.map_values(|item: String| item@)));
        }
        text
    }
}

/// The vector of two components `x` and `y`.
pub closed spec fn pair<T>(x: T, y: T) -> Vector2<T> {
    Vector([x, y])
}

/// The components of `pair(x, y)` are `x` and `y`, and no pair has the
/// components of another.
pub proof fn lemma_pair<T>(x: T, y: T)
    ensures
        pair(x, y)@ == seq![x, y],
        forall|other: Vector2<T>| #[trigger] other@ == seq![x, y] ==> other == pair(x, y),
{
    assert(pair(x, y)@ =~= seq![x, y]);
    assert forall|other: Vector2<T>| #[trigger] other@ == seq![x, y] implies other == pair(
        x,
        y,
    ) by {
        assert(other.0@ =~= pair(x, y).0@);
        assert(other.0 =~= pair(x, y).0);
    }
}

impl<T: Copy> Vector<T, 2> {
    /// The vector of two components `x` and `y`.
    pub fn of(x: T, y: T) -> (out: Self)
        ensures
            out == pair(x, y),
    {
        Vector([x, y])
    }

    /// The first component.
    pub fn x(&self) -> (x: T)
        ensures
            x == self@[0],
    {
        self.0[0]
    }

    /// The second component.
    pub fn y(&self) -> (y: T)
        ensures
            y == self@[1],
    {
        self.0[1]
    }
}

impl<T: Copy + Neg<Output = T>, const N: usize> Neg for Vector<T, N> {
    type Output = Self;

    /// Negates every component.
    fn neg(self) -> (out: Self)
        ensures
            out@.len() == N,
            T::obeys_neg_spec() ==> forall|i: int| 0 <= i < N ==> out@[i] == self@[i].neg_spec(),
    {
        let ghost wanted = Seq::new(N as nat, |i: int| self@[i].neg_spec());
        let mut out = self;
        let mut i: usize = 0;
        while i < N
            invariant
                i <= N,
                out@.len() == N,
                self@.len() == N,
                forall|j: int| 0 <= j < N ==> (#[trigger] self@[j]).neg_req(),
                forall|j: int| i <= j < N ==> out@[j] == self@[j],
                T::obeys_neg_spec() ==> forall|j: int|
                    0 <= j < i ==> out@[j] == self@[j].neg_spec(),
            decreases N - i,
        {
            out.0[i] = out.0[i].neg();
            i += 1;
        }
        proof {
            if T::obeys_neg_spec() {
                assert(out@ =~= wanted);
                lemma_view_decides(out, with_components::<T, N>(wanted));
            }
        }
        out
    }
}

impl<T: Copy + Neg<Output = T>, const N: usize> NegSpecImpl for Vector<T, N> {
    open spec fn obeys_neg_spec() -> bool {
        T::obeys_neg_spec()
    }

    open spec fn neg_req(self) -> bool {
        forall|i: int| 0 <= i < N ==> (#[trigger] self@[i]).neg_req()
    }

    open spec fn neg_spec(self) -> Self {
        with_components(Seq::new(N as nat, |i: int| self@[i].neg_spec()))
    }
}

impl<T: Copy + Add<Output = T>, const N: usize> Add<Vector<T, N>> for Vector<T, N> {
    type Output = Self;

    /// Adds component by component, by the components of another vector.
    fn add(self, rhs: Vector<T, N>) -> (out: Self)
        ensures
            out@.len() == N,
            T::obeys_add_spec() ==> forall|i: int|
                0 <= i < N ==> out@[i] == self@[i].add_spec(rhs@[i]),
    {
        let ghost wanted = Seq::new(N as nat, |i: int| self@[i].add_spec(rhs@[i]));
        let mut out = self;
        let mut i: usize = 0;
        while i < N
            invariant
                i <= N,
                out@.len() == N,
                self@.len() == N,
                rhs@.len() == N,
                forall|j: int| 0 <= j < N ==> (#[trigger] self@[j]).add_req(rhs@[j]),
                forall|j: int| i <= j < N ==> out@[j] == self@[j],
                T::obeys_add_spec() ==> forall|j: int|
                    0 <= j < i ==> out@[j] == self@[j].add_spec(rhs@[j]),
            decreases N - i,
        {
            out.0[i] = out.0[i] + rhs.0[i];
            i += 1;
        }
        proof {
            if T::obeys_add_spec() {
                assert(out@ =~= wanted);
                lemma_view_decides(out, with_components::<T, N>(wanted));
            }
        }
        out
    }
}

impl<T: Copy + Add<Output = T>, const N: usize> AddSpecImpl<Vector<T, N>> for Vector<T, N> {
    open spec fn obeys_add_spec() -> bool {
        T::obeys_add_spec()
    }

    open spec fn add_req(self, rhs: Vector<T, N>) -> bool {
        forall|i: int| 0 <= i < N ==> (#[trigger] self@[i]).add_req(rhs@[i])
    }

    open spec fn add_spec(self, rhs: Vector<T, N>) -> Self {
        with_components(Seq::new(N as nat, |i: int| self@[i].add_spec(rhs@[i])))
    }
}

impl<T: Copy + Add<Output = T>, const N: usize> Add<[T; N]> for Vector<T, N> {
    type Output = Self;

    /// Adds component by component, by the elements of an array.
    fn add(self, rhs: [T; N]) -> (out: Self)
        ensures
            out@.len() == N,
            T::obeys_add_spec() ==> forall|i: int|
                0 <= i < N ==> out@[i] == self@[i].add_spec(rhs@[i]),
    {
        let ghost wanted = Seq::new(N as nat, |i: int| self@[i].add_spec(rhs@[i]));
        let mut out = self;
        let mut i: usize = 0;
        while i < N
            invariant
                i <= N,
                out@.len() == N,
                self@.len() == N,
                rhs@.len() == N,
                forall|j: int| 0 <= j < N ==> (#[trigger] self@[j]).add_req(rhs@[j]),
                forall|j: int| i <= j < N ==> out@[j] == self@[j],
                T::obeys_add_spec() ==> forall|j: int|
                    0 <= j < i ==> out@[j] == self@[j].add_spec(rhs@[j]),
            decreases N - i,
        {
            out.0[i] = out.0[i] + rhs[i];
            i += 1;
        }
        proof {
            if T::obeys_add_spec() {
                assert(out@ =~= wanted);
                lemma_view_decides(out, with_components::<T, N>(wanted));
            }
        }
        out
    }
}

impl<T: Copy + Add<Output = T>, const N: usize> AddSpecImpl<[T; N]> for Vector<T, N> {
    open spec fn obeys_add_spec() -> bool {
        T::obeys_add_spec()
    }

    open spec fn add_req(self, rhs: [T; N]) -> bool {
        forall|i: int| 0 <= i < N ==> (#[trigger] self@[i]).add_req(rhs@[i])
    }

    open spec fn add_spec(self, rhs: [T; N]) -> Self {
        with_components(Seq::new(N as nat, |i: int| self@[i].add_spec(rhs@[i])))
    }
}

impl<T: Copy + Add<Output = T>, const N: usize> Add<T> for Vector<T, N> {
    type Output = Self;

    /// Adds every component by one scalar.
    fn add(self, rhs: T) -> (out: Self)
        ensures
            out@.len() == N,
            T::obeys_add_spec() ==> forall|i: int|
                0 <= i < N ==> out@[i] == self@[i].add_spec(rhs),
    {
        let ghost wanted = Seq::new(N as nat, |i: int| self@[i].add_spec(rhs));
        let mut out = self;
        let mut i: usize = 0;
        while i < N
            invariant
                i <= N,
                out@.len() == N,
                self@.len() == N,
                forall|j: int| 0 <= j < N ==> (#[trigger] self@[j]).add_req(rhs),
                forall|j: int| i <= j < N ==> out@[j] == self@[j],
                T::obeys_add_spec() ==> forall|j: int|
                    0 <= j < i ==> out@[j] == self@[j].add_spec(rhs),
            decreases N - i,
        {
            out.0[i] = out.0[i] + rhs;
            i += 1;
        }
        proof {
            if T::obeys_add_spec() {
                assert(out@ =~= wanted);
                lemma_view_decides(out, with_components::<T, N>(wanted));
            }
        }
        out
    }
}

impl<T: Copy + Add<Output = T>, const N: usize> AddSpecImpl<T> for Vector<T, N> {
    open spec fn obeys_add_spec() -> bool {
        T::obeys_add_spec()
    }

    open spec fn add_req(self, rhs: T) -> bool {
        forall|i: int| 0 <= i < N ==> (#[trigger] self@[i]).add_req(rhs)
    }

    open spec fn add_spec(self, rhs: T) -> Self {
        with_components(Seq::new(N as nat, |i: int| self@[i].add_spec(rhs)))
    }
}

impl<T: Copy + Sub<Output = T>, const N: usize> Sub<Vector<T, N>> for Vector<T, N> {
    type Output = Self;

    /// Subtracts component by component, by the components of another vector.
    fn sub(self, rhs: Vector<T, N>) -> (out: Self)
        ensures
            out@.len() == N,
            T::obeys_sub_spec() ==> forall|i: int|
                0 <= i < N ==> out@[i] == self@[i].sub_spec(rhs@[i]),
    {
        let ghost wanted = Seq::new(N as nat, |i: int| self@[i].sub_spec(rhs@[i]));
        let mut out = self;
        let mut i: usize = 0;
        while i < N
            invariant
                i <= N,
                out@.len() == N,
                self@.len() == N,
                rhs@.len() == N,
                forall|j: int| 0 <= j < N ==> (#[trigger] self@[j]).sub_req(rhs@[j]),
                forall|j: int| i <= j < N ==> out@[j] == self@[j],
                T::obeys_sub_spec() ==> forall|j: int|
                    0 <= j < i ==> out@[j] == self@[j].sub_spec(rhs@[j]),
            decreases N - i,
        {
            out.0[i] = out.0[i] - rhs.0[i];
            i += 1;
        }
        proof {
            if T::obeys_sub_spec() {
                assert(out@ =~= wanted);
                lemma_view_decides(out, with_components::<T, N>(wanted));
            }
        }
        out
    }
}

impl<T: Copy + Sub<Output = T>, const N: usize> SubSpecImpl<Vector<T, N>> for Vector<T, N> {
    open spec fn obeys_sub_spec() -> bool {
        T::obeys_sub_spec()
    }

    open spec fn sub_req(self, rhs: Vector<T, N>) -> bool {
        forall|i: int| 0 <= i < N ==> (#[trigger] self@[i]).sub_req(rhs@[i])
    }

    open spec fn sub_spec(self, rhs: Vector<T, N>) -> Self {
        with_components(Seq::new(N as nat, |i: int| self@[i].sub_spec(rhs@[i])))
    }
}

impl<T: Copy + Sub<Output = T>, const N: usize> Sub<[T; N]> for Vector<T, N> {
    type Output = Self;

    /// Subtracts component by component, by the elements of an array.
    fn sub(self, rhs: [T; N]) -> (out: Self)
        ensures
            out@.len() == N,
            T::obeys_sub_spec() ==> forall|i: int|
                0 <= i < N ==> out@[i] == self@[i].sub_spec(rhs@[i]),
    {
        let ghost wanted = Seq::new(N as nat, |i: int| self@[i].sub_spec(rhs@[i]));
        let mut out = self;
        let mut i: usize = 0;
        while i < N
            invariant
                i <= N,
                out@.len() == N,
                self@.len() == N,
                rhs@.len() == N,
                forall|j: int| 0 <= j < N ==> (#[trigger] self@[j]).sub_req(rhs@[j]),
                forall|j: int| i <= j < N ==> out@[j] == self@[j],
                T::obeys_sub_spec() ==> forall|j: int|
                    0 <= j < i ==> out@[j] == self@[j].sub_spec(rhs@[j]),
            decreases N - i,
        {
            out.0[i] = out.0[i] - rhs[i];
            i += 1;
        }
        proof {
            if T::obeys_sub_spec() {
                assert(out@ =~= wanted);
                lemma_view_decides(out, with_components::<T, N>(wanted));
            }
        }
        out
    }
}

impl<T: Copy + Sub<Output = T>, const N: usize> SubSpecImpl<[T; N]> for Vector<T, N> {
    open spec fn obeys_sub_spec() -> bool {
        T::obeys_sub_spec()
    }

    open spec fn sub_req(self, rhs: [T; N]) -> bool {
        forall|i: int| 0 <= i < N ==> (#[trigger] self@[i]).sub_req(rhs@[i])
    }

    open spec fn sub_spec(self, rhs: [T; N]) -> Self {
        with_components(Seq::new(N as nat, |i: int| self@[i].sub_spec(rhs@[i])))
    }
}

impl<T: Copy + Sub<Output = T>, const N: usize> Sub<T> for Vector<T, N> {
    type Output = Self;

    /// Subtracts every component by one scalar.
    fn sub(self, rhs: T) -> (out: Self)
        ensures
            out@.len() == N,
            T::obeys_sub_spec() ==> forall|i: int|
                0 <= i < N ==> out@[i] == self@[i].sub_spec(rhs),
    {
        let ghost wanted = Seq::new(N as nat, |i: int| self@[i].sub_spec(rhs));
        let mut out = self;
        let mut i: usize = 0;
        while i < N
            invariant
                i <= N,
                out@.len() == N,
                self@.len() == N,
                forall|j: int| 0 <= j < N ==> (#[trigger] self@[j]).sub_req(rhs),
                forall|j: int| i <= j < N ==> out@[j] == self@[j],
                T::obeys_sub_spec() ==> forall|j: int|
                    0 <= j < i ==> out@[j] == self@[j].sub_spec(rhs),
            decreases N - i,
        {
            out.0[i] = out.0[i] - rhs;
            i += 1;
        }
        proof {
            if T::obeys_sub_spec() {
                assert(out@ =~= wanted);
                lemma_view_decides(out, with_components::<T, N>(wanted));
            }
        }
        out
    }
}

impl<T: Copy + Sub<Output = T>, const N: usize> SubSpecImpl<T> for Vector<T, N> {
    open spec fn obeys_sub_spec() -> bool {
        T::obeys_sub_spec()
    }

    open spec fn sub_req(self, rhs: T) -> bool {
        forall|i: int| 0 <= i < N ==> (#[trigger] self@[i]).sub_req(rhs)
    }

    open spec fn sub_spec(self, rhs: T) -> Self {
        with_components(Seq::new(N as nat, |i: int| self@[i].sub_spec(rhs)))
    }
}

impl<T: Copy + Mul<Output = T>, const N: usize> Mul<Vector<T, N>> for Vector<T, N> {
    type Output = Self;

    /// Multiplies component by component, by the components of another vector.
    fn mul(self, rhs: Vector<T, N>) -> (out: Self)
        ensures
            out@.len() == N,
            T::obeys_mul_spec() ==> forall|i: int|
                0 <= i < N ==> out@[i] == self@[i].mul_spec(rhs@[i]),
    {
        let ghost wanted = Seq::new(N as nat, |i: int| self@[i].mul_spec(rhs@[i]));
        let mut out = self;
        let mut i: usize = 0;
        while i < N
            invariant
                i <= N,
                out@.len() == N,
                self@.len() == N,
                rhs@.len() == N,
                forall|j: int| 0 <= j < N ==> (#[trigger] self@[j]).mul_req(rhs@[j]),
                forall|j: int| i <= j < N ==> out@[j] == self@[j],
                T::obeys_mul_spec() ==> forall|j: int|
                    0 <= j < i ==> out@[j] == self@[j].mul_spec(rhs@[j]),
            decreases N - i,
        {
            out.0[i] = out.0[i] * rhs.0[i];
            i += 1;
        }
        proof {
            if T::obeys_mul_spec() {
                assert(out@ =~= wanted);
                lemma_view_decides(out, with_components::<T, N>(wanted));
            }
        }
        out
    }
}

impl<T: Copy + Mul<Output = T>, const N: usize> MulSpecImpl<Vector<T, N>> for Vector<T, N> {
    open spec fn obeys_mul_spec() -> bool {
        T::obeys_mul_spec()
    }

    open spec fn mul_req(self, rhs: Vector<T, N>) -> bool {
        forall|i: int| 0 <= i < N ==> (#[trigger] self@[i]).mul_req(rhs@[i])
    }

    open spec fn mul_spec(self, rhs: Vector<T, N>) -> Self {
        with_components(Seq::new(N as nat, |i: int| self@[i].mul_spec(rhs@[i])))
    }
}

impl<T: Copy + Mul<Output = T>, const N: usize> Mul<[T; N]> for Vector<T, N> {
    type Output = Self;

    /// Multiplies component by component, by the elements of an array.
    fn mul(self, rhs: [T; N]) -> (out: Self)
        ensures
            out@.len() == N,
            T::obeys_mul_spec() ==> forall|i: int|
                0 <= i < N ==> out@[i] == self@[i].mul_spec(rhs@[i]),
    {
        let ghost wanted = Seq::new(N as nat, |i: int| self@[i].mul_spec(rhs@[i]));
        let mut out = self;
        let mut i: usize = 0;
        while i < N
            invariant
                i <= N,
                out@.len() == N,
                self@.len() == N,
                rhs@.len() == N,
                forall|j: int| 0 <= j < N ==> (#[trigger] self@[j]).mul_req(rhs@[j]),
                forall|j: int| i <= j < N ==> out@[j] == self@[j],
                T::obeys_mul_spec() ==> forall|j: int|
                    0 <= j < i ==> out@[j] == self@[j].mul_spec(rhs@[j]),
            decreases N - i,
        {
            out.0[i] = out.0[i] * rhs[i];
            i += 1;
        }
        proof {
            if T::obeys_mul_spec() {
                assert(out@ =~= wanted);
                lemma_view_decides(out, with_components::<T, N>(wanted));
            }
        }
        out
    }
}

impl<T: Copy + Mul<Output = T>, const N: usize> MulSpecImpl<[T; N]> for Vector<T, N> {
    open spec fn obeys_mul_spec() -> bool {
        T::obeys_mul_spec()
    }

    open spec fn mul_req(self, rhs: [T; N]) -> bool {
        forall|i: int| 0 <= i < N ==> (#[trigger] self@[i]).mul_req(rhs@[i])
    }

    open spec fn mul_spec(self, rhs: [T; N]) -> Self {
        with_components(Seq::new(N as nat, |i: int| self@[i].mul_spec(rhs@[i])))
    }
}

impl<T: Copy + Mul<Output = T>, const N: usize> Mul<T> for Vector<T, N> {
    type Output = Self;

    /// Multiplies every component by one scalar.
    fn mul(self, rhs: T) -> (out: Self)
        ensures
            out@.len() == N,
            T::obeys_mul_spec() ==> forall|i: int|
                0 <= i < N ==> out@[i] == self@[i].mul_spec(rhs),
    {
        let ghost wanted = Seq::new(N as nat, |i: int| self@[i].mul_spec(rhs));
        let mut out = self;
        let mut i: usize = 0;
        while i < N
            invariant
                i <= N,
                out@.len() == N,
                self@.len() == N,
                forall|j: int| 0 <= j < N ==> (#[trigger] self@[j]).mul_req(rhs),
                forall|j: int| i <= j < N ==> out@[j] == self@[j],
                T::obeys_mul_spec() ==> forall|j: int|
                    0 <= j < i ==> out@[j] == self@[j].mul_spec(rhs),
            decreases N - i,
        {
            out.0[i] = out.0[i] * rhs;
            i += 1;
        }
        proof {
            if T::obeys_mul_spec() {
                assert(out@ =~= wanted);
                lemma_view_decides(out, with_components::<T, N>(wanted));
            }
        }
        out
    }
}

impl<T: Copy + Mul<Output = T>, const N: usize> MulSpecImpl<T> for Vector<T, N> {
    open spec fn obeys_mul_spec() -> bool {
        T::obeys_mul_spec()
    }

    open spec fn mul_req(self, rhs: T) -> bool {
        forall|i: int| 0 <= i < N ==> (#[trigger] self@[i]).mul_req(rhs)
    }

    open spec fn mul_spec(self, rhs: T) -> Self {
        with_components(Seq::new(N as nat, |i: int| self@[i].mul_spec(rhs)))
    }
}

impl<T: Copy + Div<Output = T>, const N: usize> Div<Vector<T, N>> for Vector<T, N> {
    type Output = Self;

    /// Divides component by component, by the components of another vector.
    fn div(self, rhs: Vector<T, N>) -> (out: Self)
        ensures
            out@.len() == N,
            T::obeys_div_spec() ==> forall|i: int|
                0 <= i < N ==> out@[i] == self@[i].div_spec(rhs@[i]),
    {
        let ghost wanted = Seq::new(N as nat, |i: int| self@[i].div_spec(rhs@[i]));
        let mut out = self;
        let mut i: usize = 0;
        while i < N
            invariant
                i <= N,
                out@.len() == N,
                self@.len() == N,
                rhs@.len() == N,
                forall|j: int| 0 <= j < N ==> (#[trigger] self@[j]).div_req(rhs@[j]),
                forall|j: int| i <= j < N ==> out@[j] == self@[j],
                T::obeys_div_spec() ==> forall|j: int|
                    0 <= j < i ==> out@[j] == self@[j].div_spec(rhs@[j]),
            decreases N - i,
        {
            out.0[i] = out.0[i] / rhs.0[i];
            i += 1;
        }
        proof {
            if T::obeys_div_spec() {
                assert(out@ =~= wanted);
                lemma_view_decides(out, with_components::<T, N>(wanted));
            }
        }
        out
    }
}

impl<T: Copy + Div<Output = T>, const N: usize> DivSpecImpl<Vector<T, N>> for Vector<T, N> {
    open spec fn obeys_div_spec() -> bool {
        T::obeys_div_spec()
    }

    open spec fn div_req(self, rhs: Vector<T, N>) -> bool {
        forall|i: int| 0 <= i < N ==> (#[trigger] self@[i]).div_req(rhs@[i])
    }

    open spec fn div_spec(self, rhs: Vector<T, N>) -> Self {
        with_components(Seq::new(N as nat, |i: int| self@[i].div_spec(rhs@[i])))
    }
}

impl<T: Copy + Div<Output = T>, const N: usize> Div<[T; N]> for Vector<T, N> {
    type Output = Self;

    /// Divides component by component, by the elements of an array.
    fn div(self, rhs: [T; N]) -> (out: Self)
        ensures
            out@.len() == N,
            T::obeys_div_spec() ==> forall|i: int|
                0 <= i < N ==> out@[i] == self@[i].div_spec(rhs@[i]),
    {
        let ghost wanted = Seq::new(N as nat, |i: int| self@[i].div_spec(rhs@[i]));
        let mut out = self;
        let mut i: usize = 0;
        while i < N
            invariant
                i <= N,
                out@.len() == N,
                self@.len() == N,
                rhs@.len() == N,
                forall|j: int| 0 <= j < N ==> (#[trigger] self@[j]).div_req(rhs@[j]),
                forall|j: int| i <= j < N ==> out@[j] == self@[j],
                T::obeys_div_spec() ==> forall|j: int|
                    0 <= j < i ==> out@[j] == self@[j].div_spec(rhs@[j]),
            decreases N - i,
        {
            out.0[i] = out.0[i] / rhs[i];
            i += 1;
        }
        proof {
            if T::obeys_div_spec() {
                assert(out@ =~= wanted);
                lemma_view_decides(out, with_components::<T, N>(wanted));
            }
        }
        out
    }
}

impl<T: Copy + Div<Output = T>, const N: usize> DivSpecImpl<[T; N]> for Vector<T, N> {
    open spec fn obeys_div_spec() -> bool {
        T::obeys_div_spec()
    }

    open spec fn div_req(self, rhs: [T; N]) -> bool {
        forall|i: int| 0 <= i < N ==> (#[trigger] self@[i]).div_req(rhs@[i])
    }

    open spec fn div_spec(self, rhs: [T; N]) -> Self {
        with_components(Seq::new(N as nat, |i: int| self@[i].div_spec(rhs@[i])))
    }
}

impl<T: Copy + Div<Output = T>, const N: usize> Div<T> for Vector<T, N> {
    type Output = Self;

    /// Divides every component by one scalar.
    fn div(self, rhs: T) -> (out: Self)
        ensures
            out@.len() == N,
            T::obeys_div_spec() ==> forall|i: int|
                0 <= i < N ==> out@[i] == self@[i].div_spec(rhs),
    {
        let ghost wanted = Seq::new(N as nat, |i: int| self@[i].div_spec(rhs));
        let mut out = self;
        let mut i: usize = 0;
        while i < N
            invariant
                i <= N,
                out@.len() == N,
                self@.len() == N,
                forall|j: int| 0 <= j < N ==> (#[trigger] self@[j]).div_req(rhs),
                forall|j: int| i <= j < N ==> out@[j] == self@[j],
                T::obeys_div_spec() ==> forall|j: int|
                    0 <= j < i ==> out@[j] == self@[j].div_spec(rhs),
            decreases N - i,
        {
            out.0[i] = out.0[i] / rhs;
            i += 1;
        }
        proof {
            if T::obeys_div_spec() {
                assert(out@ =~= wanted);
                lemma_view_decides(out, with_components::<T, N>(wanted));
            }
        }
        out
    }
}

impl<T: Copy + Div<Output = T>, const N: usize> DivSpecImpl<T> for Vector<T, N> {
    open spec fn obeys_div_spec() -> bool {
        T::obeys_div_spec()
    }

    open spec fn div_req(self, rhs: T) -> bool {
        forall|i: int| 0 <= i < N ==> (#[trigger] self@[i]).div_req(rhs)
    }

    open spec fn div_spec(self, rhs: T) -> Self {
        with_components(Seq::new(N as nat, |i: int| self@[i].div_spec(rhs)))
    }
}

impl<T: Copy + Rem<Output = T>, const N: usize> Rem<Vector<T, N>> for Vector<T, N> {
    type Output = Self;

    /// Reduces component by component, by the components of another vector.
    fn rem(self, rhs: Vector<T, N>) -> (out: Self)
        ensures
            out@.len() == N,
            T::obeys_rem_spec() ==> forall|i: int|
                0 <= i < N ==> out@[i] == self@[i].rem_spec(rhs@[i]),
    {
        let ghost wanted = Seq::new(N as nat, |i: int| self@[i].rem_spec(rhs@[i]));
        let mut out = self;
        let mut i: usize = 0;
        while i < N
            invariant
                i <= N,
                out@.len() == N,
                self@.len() == N,
                rhs@.len() == N,
                forall|j: int| 0 <= j < N ==> (#[trigger] self@[j]).rem_req(rhs@[j]),
                forall|j: int| i <= j < N ==> out@[j] == self@[j],
                T::obeys_rem_spec() ==> forall|j: int|
                    0 <= j < i ==> out@[j] == self@[j].rem_spec(rhs@[j]),
            decreases N - i,
        {
            out.0[i] = out.0[i] % rhs.0[i];
            i += 1;
        }
        proof {
            if T::obeys_rem_spec() {
                assert(out@ =~= wanted);
                lemma_view_decides(out, with_components::<T, N>(wanted));
            }
        }
        out
    }
}

impl<T: Copy + Rem<Output = T>, const N: usize> RemSpecImpl<Vector<T, N>> for Vector<T, N> {
    open spec fn obeys_rem_spec() -> bool {
        T::obeys_rem_spec()
    }

    open spec fn rem_req(self, rhs: Vector<T, N>) -> bool {
        forall|i: int| 0 <= i < N ==> (#[trigger] self@[i]).rem_req(rhs@[i])
    }

    open spec fn rem_spec(self, rhs: Vector<T, N>) -> Self {
        with_components(Seq::new(N as nat, |i: int| self@[i].rem_spec(rhs@[i])))
    }
}

impl<T: Copy + Rem<Output = T>, const N: usize> Rem<[T; N]> for Vector<T, N> {
    type Output = Self;

    /// Reduces component by component, by the elements of an array.
    fn rem(self, rhs: [T; N]) -> (out: Self)
        ensures
            out@.len() == N,
            T::obeys_rem_spec() ==> forall|i: int|
                0 <= i < N ==> out@[i] == self@[i].rem_spec(rhs@[i]),
    {
        let ghost wanted = Seq::new(N as nat, |i: int| self@[i].rem_spec(rhs@[i]));
        let mut out = self;
        let mut i: usize = 0;
        while i < N
            invariant
                i <= N,
                out@.len() == N,
                self@.len() == N,
                rhs@.len() == N,
                forall|j: int| 0 <= j < N ==> (#[trigger] self@[j]).rem_req(rhs@[j]),
                forall|j: int| i <= j < N ==> out@[j] == self@[j],
                T::obeys_rem_spec() ==> forall|j: int|
                    0 <= j < i ==> out@[j] == self@[j].rem_spec(rhs@[j]),
            decreases N - i,
        {
            out.0[i] = out.0[i] % rhs[i];
            i += 1;
        }
        proof {
            if T::obeys_rem_spec() {
                assert(out@ =~= wanted);
                lemma_view_decides(out, with_components::<T, N>(wanted));
            }
        }
        out
    }
}

impl<T: Copy + Rem<Output = T>, const N: usize> RemSpecImpl<[T; N]> for Vector<T, N> {
    open spec fn obeys_rem_spec() -> bool {
        T::obeys_rem_spec()
    }

    open spec fn rem_req(self, rhs: [T; N]) -> bool {
        forall|i: int| 0 <= i < N ==> (#[trigger] self@[i]).rem_req(rhs@[i])
    }

    open spec fn rem_spec(self, rhs: [T; N]) -> Self {
        with_components(Seq::new(N as nat, |i: int| self@[i].rem_spec(rhs@[i])))
    }
}

impl<T: Copy + Rem<Output = T>, const N: usize> Rem<T> for Vector<T, N> {
    type Output = Self;

    /// Reduces every component by one scalar.
    fn rem(self, rhs: T) -> (out: Self)
        ensures
            out@.len() == N,
            T::obeys_rem_spec() ==> forall|i: int|
                0 <= i < N ==> out@[i] == self@[i].rem_spec(rhs),
    {
        let ghost wanted = Seq::new(N as nat, |i: int| self@[i].rem_spec(rhs));
        let mut out = self;
        let mut i: usize = 0;
        while i < N
            invariant
                i <= N,
                out@.len() == N,
                self@.len() == N,
                forall|j: int| 0 <= j < N ==> (#[trigger] self@[j]).rem_req(rhs),
                forall|j: int| i <= j < N ==> out@[j] == self@[j],
                T::obeys_rem_spec() ==> forall|j: int|
                    0 <= j < i ==> out@[j] == self@[j].rem_spec(rhs),
            decreases N - i,
        {
            out.0[i] = out.0[i] % rhs;
            i += 1;
        }
        proof {
            if T::obeys_rem_spec() {
                assert(out@ =~= wanted);
                lemma_view_decides(out, with_components::<T, N>(wanted));
            }
        }
        out
    }
}

impl<T: Copy + Rem<Output = T>, const N: usize> RemSpecImpl<T> for Vector<T, N> {
    open spec fn obeys_rem_spec() -> bool {
        T::obeys_rem_spec()
    }

    open spec fn rem_req(self, rhs: T) -> bool {
        forall|i: int| 0 <= i < N ==> (#[trigger] self@[i]).rem_req(rhs)
    }

    open spec fn rem_spec(self, rhs: T) -> Self {
        with_components(Seq::new(N as nat, |i: int| self@[i].rem_spec(rhs)))
    }
}

} // verus!
