//! The values of statistics, by their type.
use vstd::prelude::*;
use crate::pass::collected::{Collected, Lanes, Plain, Table};
use crate::pass::statistics::{
    AnyStatistic, FlagAll, FlagAny, FlagNone, PassStatistic, StatisticValue,
};

verus! {

/// A type that the value of a statistic can have.
pub trait StatisticType: StatisticValue {
    /// The value of a statistic, if it has this type.
    spec fn unwrapped(statistic: AnyStatistic) -> Option<Self>;

    /// The statistic with another value of this type.
    spec fn replaced(statistic: AnyStatistic, value: Self) -> AnyStatistic;

    /// The value of a statistic, if it has this type.
    fn unwrap_ref(statistic: &AnyStatistic) -> (value: Option<&Self>)
        ensures
            match value {
                Some(value) => Self::unwrapped(*statistic) == Some(*value),
                None => Self::unwrapped(*statistic) is None,
            },
    ;

    /// The value of a statistic, if it has this type, to be changed.
    fn unwrap_mut(statistic: &mut AnyStatistic) -> (value: Option<&mut Self>)
        ensures
            match value {
                Some(value) => Self::unwrapped(*old(statistic)) == Some(*value) && *final(statistic)
                    == Self::replaced(*old(statistic), *final(value)),
                None => Self::unwrapped(*old(statistic)) is None && *final(statistic) == *old(
                    statistic,
                ),
            },
    ;
}

/// A type of values that statistics collect, as a kind of statistic.
pub trait Kind: Plain {
    /// The statistic, if its values are of this type.
    spec fn of_kind(statistic: AnyStatistic) -> Option<Collected<Self>>;

    /// A statistic of values of this type.
    spec fn as_any(statistic: Collected<Self>) -> AnyStatistic;

    /// The statistic, if its values are of this type.
    fn kind_ref(statistic: &AnyStatistic) -> (found: Option<&Collected<Self>>)
        ensures
            match found {
                Some(found) => Self::of_kind(*statistic) == Some(*found),
                None => Self::of_kind(*statistic) is None,
            },
    ;

    /// The statistic, if its values are of this type, to be changed.
    fn kind_mut(statistic: &mut AnyStatistic) -> (found: Option<&mut Collected<Self>>)
        ensures
            match found {
                Some(found) => Self::of_kind(*old(statistic)) == Some(*found) && *final(statistic)
                    == Self::as_any(*final(found)),
                None => Self::of_kind(*old(statistic)) is None && *final(statistic) == *old(
                    statistic,
                ),
            },
    ;
}

impl Kind for bool {
    open spec fn of_kind(statistic: AnyStatistic) -> Option<Collected<Self>> {
        match statistic {
            AnyStatistic::Bool(inner) => Some(inner),
            _ => None,
        }
    }

    open spec fn as_any(statistic: Collected<Self>) -> AnyStatistic {
        AnyStatistic::Bool(statistic)
    }

    fn kind_ref(statistic: &AnyStatistic) -> (found: Option<&Collected<Self>>) {
        match statistic {
            AnyStatistic::Bool(inner) => Some(inner),
            _ => None,
        }
    }

    fn kind_mut(statistic: &mut AnyStatistic) -> (found: Option<&mut Collected<Self>>) {
        match statistic {
            AnyStatistic::Bool(inner) => Some(inner),
            _ => None,
        }
    }
}

impl Kind for FlagNone {
    open spec fn of_kind(statistic: AnyStatistic) -> Option<Collected<Self>> {
        match statistic {
            AnyStatistic::FlagNone(inner) => Some(inner),
            _ => None,
        }
    }

    open spec fn as_any(statistic: Collected<Self>) -> AnyStatistic {
        AnyStatistic::FlagNone(statistic)
    }

    fn kind_ref(statistic: &AnyStatistic) -> (found: Option<&Collected<Self>>) {
        match statistic {
            AnyStatistic::FlagNone(inner) => Some(inner),
            _ => None,
        }
    }

    fn kind_mut(statistic: &mut AnyStatistic) -> (found: Option<&mut Collected<Self>>) {
        match statistic {
            AnyStatistic::FlagNone(inner) => Some(inner),
            _ => None,
        }
    }
}

impl Kind for FlagAny {
    open spec fn of_kind(statistic: AnyStatistic) -> Option<Collected<Self>> {
        match statistic {
            AnyStatistic::FlagAny(inner) => Some(inner),
            _ => None,
        }
    }

    open spec fn as_any(statistic: Collected<Self>) -> AnyStatistic {
        AnyStatistic::FlagAny(statistic)
    }

    fn kind_ref(statistic: &AnyStatistic) -> (found: Option<&Collected<Self>>) {
        match statistic {
            AnyStatistic::FlagAny(inner) => Some(inner),
            _ => None,
        }
    }

    fn kind_mut(statistic: &mut AnyStatistic) -> (found: Option<&mut Collected<Self>>) {
        match statistic {
            AnyStatistic::FlagAny(inner) => Some(inner),
            _ => None,
        }
    }
}

impl Kind for FlagAll {
    open spec fn of_kind(statistic: AnyStatistic) -> Option<Collected<Self>> {
        match statistic {
            AnyStatistic::FlagAll(inner) => Some(inner),
            _ => None,
        }
    }

    open spec fn as_any(statistic: Collected<Self>) -> AnyStatistic {
        AnyStatistic::FlagAll(statistic)
    }

    fn kind_ref(statistic: &AnyStatistic) -> (found: Option<&Collected<Self>>) {
        match statistic {
            AnyStatistic::FlagAll(inner) => Some(inner),
            _ => None,
        }
    }

    fn kind_mut(statistic: &mut AnyStatistic) -> (found: Option<&mut Collected<Self>>) {
        match statistic {
            AnyStatistic::FlagAll(inner) => Some(inner),
            _ => None,
        }
    }
}

impl Kind for u8 {
    open spec fn of_kind(statistic: AnyStatistic) -> Option<Collected<Self>> {
        match statistic {
            AnyStatistic::U8(inner) => Some(inner),
            _ => None,
        }
    }

    open spec fn as_any(statistic: Collected<Self>) -> AnyStatistic {
        AnyStatistic::U8(statistic)
    }

    fn kind_ref(statistic: &AnyStatistic) -> (found: Option<&Collected<Self>>) {
        match statistic {
            AnyStatistic::U8(inner) => Some(inner),
            _ => None,
        }
    }

    fn kind_mut(statistic: &mut AnyStatistic) -> (found: Option<&mut Collected<Self>>) {
        match statistic {
            AnyStatistic::U8(inner) => Some(inner),
            _ => None,
        }
    }
}

impl Kind for i8 {
    open spec fn of_kind(statistic: AnyStatistic) -> Option<Collected<Self>> {
        match statistic {
            AnyStatistic::I8(inner) => Some(inner),
            _ => None,
        }
    }

    open spec fn as_any(statistic: Collected<Self>) -> AnyStatistic {
        AnyStatistic::I8(statistic)
    }

    fn kind_ref(statistic: &AnyStatistic) -> (found: Option<&Collected<Self>>) {
        match statistic {
            AnyStatistic::I8(inner) => Some(inner),
            _ => None,
        }
    }

    fn kind_mut(statistic: &mut AnyStatistic) -> (found: Option<&mut Collected<Self>>) {
        match statistic {
            AnyStatistic::I8(inner) => Some(inner),
            _ => None,
        }
    }
}

impl Kind for u16 {
    open spec fn of_kind(statistic: AnyStatistic) -> Option<Collected<Self>> {
        match statistic {
            AnyStatistic::U16(inner) => Some(inner),
            _ => None,
        }
    }

    open spec fn as_any(statistic: Collected<Self>) -> AnyStatistic {
        AnyStatistic::U16(statistic)
    }

    fn kind_ref(statistic: &AnyStatistic) -> (found: Option<&Collected<Self>>) {
        match statistic {
            AnyStatistic::U16(inner) => Some(inner),
            _ => None,
        }
    }

    fn kind_mut(statistic: &mut AnyStatistic) -> (found: Option<&mut Collected<Self>>) {
        match statistic {
            AnyStatistic::U16(inner) => Some(inner),
            _ => None,
        }
    }
}

impl Kind for i16 {
    open spec fn of_kind(statistic: AnyStatistic) -> Option<Collected<Self>> {
        match statistic {
            AnyStatistic::I16(inner) => Some(inner),
            _ => None,
        }
    }

    open spec fn as_any(statistic: Collected<Self>) -> AnyStatistic {
        AnyStatistic::I16(statistic)
    }

    fn kind_ref(statistic: &AnyStatistic) -> (found: Option<&Collected<Self>>) {
        match statistic {
            AnyStatistic::I16(inner) => Some(inner),
            _ => None,
        }
    }

    fn kind_mut(statistic: &mut AnyStatistic) -> (found: Option<&mut Collected<Self>>) {
        match statistic {
            AnyStatistic::I16(inner) => Some(inner),
            _ => None,
        }
    }
}

impl Kind for u32 {
    open spec fn of_kind(statistic: AnyStatistic) -> Option<Collected<Self>> {
        match statistic {
            AnyStatistic::U32(inner) => Some(inner),
            _ => None,
        }
    }

    open spec fn as_any(statistic: Collected<Self>) -> AnyStatistic {
        AnyStatistic::U32(statistic)
    }

    fn kind_ref(statistic: &AnyStatistic) -> (found: Option<&Collected<Self>>) {
        match statistic {
            AnyStatistic::U32(inner) => Some(inner),
            _ => None,
        }
    }

    fn kind_mut(statistic: &mut AnyStatistic) -> (found: Option<&mut Collected<Self>>) {
        match statistic {
            AnyStatistic::U32(inner) => Some(inner),
            _ => None,
        }
    }
}

impl Kind for i32 {
    open spec fn of_kind(statistic: AnyStatistic) -> Option<Collected<Self>> {
        match statistic {
            AnyStatistic::I32(inner) => Some(inner),
            _ => None,
        }
    }

    open spec fn as_any(statistic: Collected<Self>) -> AnyStatistic {
        AnyStatistic::I32(statistic)
    }

    fn kind_ref(statistic: &AnyStatistic) -> (found: Option<&Collected<Self>>) {
        match statistic {
            AnyStatistic::I32(inner) => Some(inner),
            _ => None,
        }
    }

    fn kind_mut(statistic: &mut AnyStatistic) -> (found: Option<&mut Collected<Self>>) {
        match statistic {
            AnyStatistic::I32(inner) => Some(inner),
            _ => None,
        }
    }
}

impl Kind for u64 {
    open spec fn of_kind(statistic: AnyStatistic) -> Option<Collected<Self>> {
        match statistic {
            AnyStatistic::U64(inner) => Some(inner),
            _ => None,
        }
    }

    open spec fn as_any(statistic: Collected<Self>) -> AnyStatistic {
        AnyStatistic::U64(statistic)
    }

    fn kind_ref(statistic: &AnyStatistic) -> (found: Option<&Collected<Self>>) {
        match statistic {
            AnyStatistic::U64(inner) => Some(inner),
            _ => None,
        }
    }

    fn kind_mut(statistic: &mut AnyStatistic) -> (found: Option<&mut Collected<Self>>) {
        match statistic {
            AnyStatistic::U64(inner) => Some(inner),
            _ => None,
        }
    }
}

impl Kind for i64 {
    open spec fn of_kind(statistic: AnyStatistic) -> Option<Collected<Self>> {
        match statistic {
            AnyStatistic::I64(inner) => Some(inner),
            _ => None,
        }
    }

    open spec fn as_any(statistic: Collected<Self>) -> AnyStatistic {
        AnyStatistic::I64(statistic)
    }

    fn kind_ref(statistic: &AnyStatistic) -> (found: Option<&Collected<Self>>) {
        match statistic {
            AnyStatistic::I64(inner) => Some(inner),
            _ => None,
        }
    }

    fn kind_mut(statistic: &mut AnyStatistic) -> (found: Option<&mut Collected<Self>>) {
        match statistic {
            AnyStatistic::I64(inner) => Some(inner),
            _ => None,
        }
    }
}

impl Kind for usize {
    open spec fn of_kind(statistic: AnyStatistic) -> Option<Collected<Self>> {
        match statistic {
            AnyStatistic::Usize(inner) => Some(inner),
            _ => None,
        }
    }

    open spec fn as_any(statistic: Collected<Self>) -> AnyStatistic {
        AnyStatistic::Usize(statistic)
    }

    fn kind_ref(statistic: &AnyStatistic) -> (found: Option<&Collected<Self>>) {
        match statistic {
            AnyStatistic::Usize(inner) => Some(inner),
            _ => None,
        }
    }

    fn kind_mut(statistic: &mut AnyStatistic) -> (found: Option<&mut Collected<Self>>) {
        match statistic {
            AnyStatistic::Usize(inner) => Some(inner),
            _ => None,
        }
    }
}

impl Kind for isize {
    open spec fn of_kind(statistic: AnyStatistic) -> Option<Collected<Self>> {
        match statistic {
            AnyStatistic::Isize(inner) => Some(inner),
            _ => None,
        }
    }

    open spec fn as_any(statistic: Collected<Self>) -> AnyStatistic {
        AnyStatistic::Isize(statistic)
    }

    fn kind_ref(statistic: &AnyStatistic) -> (found: Option<&Collected<Self>>) {
        match statistic {
            AnyStatistic::Isize(inner) => Some(inner),
            _ => None,
        }
    }

    fn kind_mut(statistic: &mut AnyStatistic) -> (found: Option<&mut Collected<Self>>) {
        match statistic {
            AnyStatistic::Isize(inner) => Some(inner),
            _ => None,
        }
    }
}

impl StatisticType for bool {
    open spec fn unwrapped(statistic: AnyStatistic) -> Option<Self> {
        match <bool as Kind>::of_kind(statistic) {
            Some(Collected::One(inner)) => Some(inner.value),
            _ => None,
        }
    }

    open spec fn replaced(statistic: AnyStatistic, value: Self) -> AnyStatistic {
        match <bool as Kind>::of_kind(statistic) {
            Some(Collected::One(inner)) => <bool as Kind>::as_any(
                Collected::One(PassStatistic { value, ..inner }),
            ),
            _ => statistic,
        }
    }

    fn unwrap_ref(statistic: &AnyStatistic) -> (value: Option<&Self>) {
        match <bool as Kind>::kind_ref(statistic) {
            Some(Collected::One(inner)) => Some(&inner.value),
            _ => None,
        }
    }

    fn unwrap_mut(statistic: &mut AnyStatistic) -> (value: Option<&mut Self>) {
        if Self::unwrap_ref(statistic).is_none() {
            return None;
        }
        match <bool as Kind>::kind_mut(statistic) {
            Some(Collected::One(inner)) => Some(&mut inner.value),
            _ => None,
        }
    }
}

impl StatisticType for FlagNone {
    open spec fn unwrapped(statistic: AnyStatistic) -> Option<Self> {
        match <FlagNone as Kind>::of_kind(statistic) {
            Some(Collected::One(inner)) => Some(inner.value),
            _ => None,
        }
    }

    open spec fn replaced(statistic: AnyStatistic, value: Self) -> AnyStatistic {
        match <FlagNone as Kind>::of_kind(statistic) {
            Some(Collected::One(inner)) => <FlagNone as Kind>::as_any(
                Collected::One(PassStatistic { value, ..inner }),
            ),
            _ => statistic,
        }
    }

    fn unwrap_ref(statistic: &AnyStatistic) -> (value: Option<&Self>) {
        match <FlagNone as Kind>::kind_ref(statistic) {
            Some(Collected::One(inner)) => Some(&inner.value),
            _ => None,
        }
    }

    fn unwrap_mut(statistic: &mut AnyStatistic) -> (value: Option<&mut Self>) {
        if Self::unwrap_ref(statistic).is_none() {
            return None;
        }
        match <FlagNone as Kind>::kind_mut(statistic) {
            Some(Collected::One(inner)) => Some(&mut inner.value),
            _ => None,
        }
    }
}

impl StatisticType for FlagAny {
    open spec fn unwrapped(statistic: AnyStatistic) -> Option<Self> {
        match <FlagAny as Kind>::of_kind(statistic) {
            Some(Collected::One(inner)) => Some(inner.value),
            _ => None,
        }
    }

    open spec fn replaced(statistic: AnyStatistic, value: Self) -> AnyStatistic {
        match <FlagAny as Kind>::of_kind(statistic) {
            Some(Collected::One(inner)) => <FlagAny as Kind>::as_any(
                Collected::One(PassStatistic { value, ..inner }),
            ),
            _ => statistic,
        }
    }

    fn unwrap_ref(statistic: &AnyStatistic) -> (value: Option<&Self>) {
        match <FlagAny as Kind>::kind_ref(statistic) {
            Some(Collected::One(inner)) => Some(&inner.value),
            _ => None,
        }
    }

    fn unwrap_mut(statistic: &mut AnyStatistic) -> (value: Option<&mut Self>) {
        if Self::unwrap_ref(statistic).is_none() {
            return None;
        }
        match <FlagAny as Kind>::kind_mut(statistic) {
            Some(Collected::One(inner)) => Some(&mut inner.value),
            _ => None,
        }
    }
}

impl StatisticType for FlagAll {
    open spec fn unwrapped(statistic: AnyStatistic) -> Option<Self> {
        match <FlagAll as Kind>::of_kind(statistic) {
            Some(Collected::One(inner)) => Some(inner.value),
            _ => None,
        }
    }

    open spec fn replaced(statistic: AnyStatistic, value: Self) -> AnyStatistic {
        match <FlagAll as Kind>::of_kind(statistic) {
            Some(Collected::One(inner)) => <FlagAll as Kind>::as_any(
                Collected::One(PassStatistic { value, ..inner }),
            ),
            _ => statistic,
        }
    }

    fn unwrap_ref(statistic: &AnyStatistic) -> (value: Option<&Self>) {
        match <FlagAll as Kind>::kind_ref(statistic) {
            Some(Collected::One(inner)) => Some(&inner.value),
            _ => None,
        }
    }

    fn unwrap_mut(statistic: &mut AnyStatistic) -> (value: Option<&mut Self>) {
        if Self::unwrap_ref(statistic).is_none() {
            return None;
        }
        match <FlagAll as Kind>::kind_mut(statistic) {
            Some(Collected::One(inner)) => Some(&mut inner.value),
            _ => None,
        }
    }
}

impl StatisticType for u8 {
    open spec fn unwrapped(statistic: AnyStatistic) -> Option<Self> {
        match <u8 as Kind>::of_kind(statistic) {
            Some(Collected::One(inner)) => Some(inner.value),
            _ => None,
        }
    }

    open spec fn replaced(statistic: AnyStatistic, value: Self) -> AnyStatistic {
        match <u8 as Kind>::of_kind(statistic) {
            Some(Collected::One(inner)) => <u8 as Kind>::as_any(
                Collected::One(PassStatistic { value, ..inner }),
            ),
            _ => statistic,
        }
    }

    fn unwrap_ref(statistic: &AnyStatistic) -> (value: Option<&Self>) {
        match <u8 as Kind>::kind_ref(statistic) {
            Some(Collected::One(inner)) => Some(&inner.value),
            _ => None,
        }
    }

    fn unwrap_mut(statistic: &mut AnyStatistic) -> (value: Option<&mut Self>) {
        if Self::unwrap_ref(statistic).is_none() {
            return None;
        }
        match <u8 as Kind>::kind_mut(statistic) {
            Some(Collected::One(inner)) => Some(&mut inner.value),
            _ => None,
        }
    }
}

impl StatisticType for i8 {
    open spec fn unwrapped(statistic: AnyStatistic) -> Option<Self> {
        match <i8 as Kind>::of_kind(statistic) {
            Some(Collected::One(inner)) => Some(inner.value),
            _ => None,
        }
    }

    open spec fn replaced(statistic: AnyStatistic, value: Self) -> AnyStatistic {
        match <i8 as Kind>::of_kind(statistic) {
            Some(Collected::One(inner)) => <i8 as Kind>::as_any(
                Collected::One(PassStatistic { value, ..inner }),
            ),
            _ => statistic,
        }
    }

    fn unwrap_ref(statistic: &AnyStatistic) -> (value: Option<&Self>) {
        match <i8 as Kind>::kind_ref(statistic) {
            Some(Collected::One(inner)) => Some(&inner.value),
            _ => None,
        }
    }

    fn unwrap_mut(statistic: &mut AnyStatistic) -> (value: Option<&mut Self>) {
        if Self::unwrap_ref(statistic).is_none() {
            return None;
        }
        match <i8 as Kind>::kind_mut(statistic) {
            Some(Collected::One(inner)) => Some(&mut inner.value),
            _ => None,
        }
    }
}

impl StatisticType for u16 {
    open spec fn unwrapped(statistic: AnyStatistic) -> Option<Self> {
        match <u16 as Kind>::of_kind(statistic) {
            Some(Collected::One(inner)) => Some(inner.value),
            _ => None,
        }
    }

    open spec fn replaced(statistic: AnyStatistic, value: Self) -> AnyStatistic {
        match <u16 as Kind>::of_kind(statistic) {
            Some(Collected::One(inner)) => <u16 as Kind>::as_any(
                Collected::One(PassStatistic { value, ..inner }),
            ),
            _ => statistic,
        }
    }

    fn unwrap_ref(statistic: &AnyStatistic) -> (value: Option<&Self>) {
        match <u16 as Kind>::kind_ref(statistic) {
            Some(Collected::One(inner)) => Some(&inner.value),
            _ => None,
        }
    }

    fn unwrap_mut(statistic: &mut AnyStatistic) -> (value: Option<&mut Self>) {
        if Self::unwrap_ref(statistic).is_none() {
            return None;
        }
        match <u16 as Kind>::kind_mut(statistic) {
            Some(Collected::One(inner)) => Some(&mut inner.value),
            _ => None,
        }
    }
}

impl StatisticType for i16 {
    open spec fn unwrapped(statistic: AnyStatistic) -> Option<Self> {
        match <i16 as Kind>::of_kind(statistic) {
            Some(Collected::One(inner)) => Some(inner.value),
            _ => None,
        }
    }

    open spec fn replaced(statistic: AnyStatistic, value: Self) -> AnyStatistic {
        match <i16 as Kind>::of_kind(statistic) {
            Some(Collected::One(inner)) => <i16 as Kind>::as_any(
                Collected::One(PassStatistic { value, ..inner }),
            ),
            _ => statistic,
        }
    }

    fn unwrap_ref(statistic: &AnyStatistic) -> (value: Option<&Self>) {
        match <i16 as Kind>::kind_ref(statistic) {
            Some(Collected::One(inner)) => Some(&inner.value),
            _ => None,
        }
    }

    fn unwrap_mut(statistic: &mut AnyStatistic) -> (value: Option<&mut Self>) {
        if Self::unwrap_ref(statistic).is_none() {
            return None;
        }
        match <i16 as Kind>::kind_mut(statistic) {
            Some(Collected::One(inner)) => Some(&mut inner.value),
            _ => None,
        }
    }
}

impl StatisticType for u32 {
    open spec fn unwrapped(statistic: AnyStatistic) -> Option<Self> {
        match <u32 as Kind>::of_kind(statistic) {
            Some(Collected::One(inner)) => Some(inner.value),
            _ => None,
        }
    }

    open spec fn replaced(statistic: AnyStatistic, value: Self) -> AnyStatistic {
        match <u32 as Kind>::of_kind(statistic) {
            Some(Collected::One(inner)) => <u32 as Kind>::as_any(
                Collected::One(PassStatistic { value, ..inner }),
            ),
            _ => statistic,
        }
    }

    fn unwrap_ref(statistic: &AnyStatistic) -> (value: Option<&Self>) {
        match <u32 as Kind>::kind_ref(statistic) {
            Some(Collected::One(inner)) => Some(&inner.value),
            _ => None,
        }
    }

    fn unwrap_mut(statistic: &mut AnyStatistic) -> (value: Option<&mut Self>) {
        if Self::unwrap_ref(statistic).is_none() {
            return None;
        }
        match <u32 as Kind>::kind_mut(statistic) {
            Some(Collected::One(inner)) => Some(&mut inner.value),
            _ => None,
        }
    }
}

impl StatisticType for i32 {
    open spec fn unwrapped(statistic: AnyStatistic) -> Option<Self> {
        match <i32 as Kind>::of_kind(statistic) {
            Some(Collected::One(inner)) => Some(inner.value),
            _ => None,
        }
    }

    open spec fn replaced(statistic: AnyStatistic, value: Self) -> AnyStatistic {
        match <i32 as Kind>::of_kind(statistic) {
            Some(Collected::One(inner)) => <i32 as Kind>::as_any(
                Collected::One(PassStatistic { value, ..inner }),
            ),
            _ => statistic,
        }
    }

    fn unwrap_ref(statistic: &AnyStatistic) -> (value: Option<&Self>) {
        match <i32 as Kind>::kind_ref(statistic) {
            Some(Collected::One(inner)) => Some(&inner.value),
            _ => None,
        }
    }

    fn unwrap_mut(statistic: &mut AnyStatistic) -> (value: Option<&mut Self>) {
        if Self::unwrap_ref(statistic).is_none() {
            return None;
        }
        match <i32 as Kind>::kind_mut(statistic) {
            Some(Collected::One(inner)) => Some(&mut inner.value),
            _ => None,
        }
    }
}

impl StatisticType for u64 {
    open spec fn unwrapped(statistic: AnyStatistic) -> Option<Self> {
        match <u64 as Kind>::of_kind(statistic) {
            Some(Collected::One(inner)) => Some(inner.value),
            _ => None,
        }
    }

    open spec fn replaced(statistic: AnyStatistic, value: Self) -> AnyStatistic {
        match <u64 as Kind>::of_kind(statistic) {
            Some(Collected::One(inner)) => <u64 as Kind>::as_any(
                Collected::One(PassStatistic { value, ..inner }),
            ),
            _ => statistic,
        }
    }

    fn unwrap_ref(statistic: &AnyStatistic) -> (value: Option<&Self>) {
        match <u64 as Kind>::kind_ref(statistic) {
            Some(Collected::One(inner)) => Some(&inner.value),
            _ => None,
        }
    }

    fn unwrap_mut(statistic: &mut AnyStatistic) -> (value: Option<&mut Self>) {
        if Self::unwrap_ref(statistic).is_none() {
            return None;
        }
        match <u64 as Kind>::kind_mut(statistic) {
            Some(Collected::One(inner)) => Some(&mut inner.value),
            _ => None,
        }
    }
}

impl StatisticType for i64 {
    open spec fn unwrapped(statistic: AnyStatistic) -> Option<Self> {
        match <i64 as Kind>::of_kind(statistic) {
            Some(Collected::One(inner)) => Some(inner.value),
            _ => None,
        }
    }

    open spec fn replaced(statistic: AnyStatistic, value: Self) -> AnyStatistic {
        match <i64 as Kind>::of_kind(statistic) {
            Some(Collected::One(inner)) => <i64 as Kind>::as_any(
                Collected::One(PassStatistic { value, ..inner }),
            ),
            _ => statistic,
        }
    }

    fn unwrap_ref(statistic: &AnyStatistic) -> (value: Option<&Self>) {
        match <i64 as Kind>::kind_ref(statistic) {
            Some(Collected::One(inner)) => Some(&inner.value),
            _ => None,
        }
    }

    fn unwrap_mut(statistic: &mut AnyStatistic) -> (value: Option<&mut Self>) {
        if Self::unwrap_ref(statistic).is_none() {
            return None;
        }
        match <i64 as Kind>::kind_mut(statistic) {
            Some(Collected::One(inner)) => Some(&mut inner.value),
            _ => None,
        }
    }
}

impl StatisticType for usize {
    open spec fn unwrapped(statistic: AnyStatistic) -> Option<Self> {
        match <usize as Kind>::of_kind(statistic) {
            Some(Collected::One(inner)) => Some(inner.value),
            _ => None,
        }
    }

    open spec fn replaced(statistic: AnyStatistic, value: Self) -> AnyStatistic {
        match <usize as Kind>::of_kind(statistic) {
            Some(Collected::One(inner)) => <usize as Kind>::as_any(
                Collected::One(PassStatistic { value, ..inner }),
            ),
            _ => statistic,
        }
    }

    fn unwrap_ref(statistic: &AnyStatistic) -> (value: Option<&Self>) {
        match <usize as Kind>::kind_ref(statistic) {
            Some(Collected::One(inner)) => Some(&inner.value),
            _ => None,
        }
    }

    fn unwrap_mut(statistic: &mut AnyStatistic) -> (value: Option<&mut Self>) {
        if Self::unwrap_ref(statistic).is_none() {
            return None;
        }
        match <usize as Kind>::kind_mut(statistic) {
            Some(Collected::One(inner)) => Some(&mut inner.value),
            _ => None,
        }
    }
}

impl StatisticType for isize {
    open spec fn unwrapped(statistic: AnyStatistic) -> Option<Self> {
        match <isize as Kind>::of_kind(statistic) {
            Some(Collected::One(inner)) => Some(inner.value),
            _ => None,
        }
    }

    open spec fn replaced(statistic: AnyStatistic, value: Self) -> AnyStatistic {
        match <isize as Kind>::of_kind(statistic) {
            Some(Collected::One(inner)) => <isize as Kind>::as_any(
                Collected::One(PassStatistic { value, ..inner }),
            ),
            _ => statistic,
        }
    }

    fn unwrap_ref(statistic: &AnyStatistic) -> (value: Option<&Self>) {
        match <isize as Kind>::kind_ref(statistic) {
            Some(Collected::One(inner)) => Some(&inner.value),
            _ => None,
        }
    }

    fn unwrap_mut(statistic: &mut AnyStatistic) -> (value: Option<&mut Self>) {
        if Self::unwrap_ref(statistic).is_none() {
            return None;
        }
        match <isize as Kind>::kind_mut(statistic) {
            Some(Collected::One(inner)) => Some(&mut inner.value),
            _ => None,
        }
    }
}

impl<T: Kind> StatisticType for Vec<T> {
    open spec fn unwrapped(statistic: AnyStatistic) -> Option<Self> {
        match <T as Kind>::of_kind(statistic) {
            Some(Collected::List(inner)) => Some(inner.value),
            _ => None,
        }
    }

    open spec fn replaced(statistic: AnyStatistic, value: Self) -> AnyStatistic {
        match <T as Kind>::of_kind(statistic) {
            Some(Collected::List(inner)) => <T as Kind>::as_any(
                Collected::List(PassStatistic { value, ..inner }),
            ),
            _ => statistic,
        }
    }

    fn unwrap_ref(statistic: &AnyStatistic) -> (value: Option<&Self>) {
        match <T as Kind>::kind_ref(statistic) {
            Some(Collected::List(inner)) => Some(&inner.value),
            _ => None,
        }
    }

    fn unwrap_mut(statistic: &mut AnyStatistic) -> (value: Option<&mut Self>) {
        if Self::unwrap_ref(statistic).is_none() {
            return None;
        }
        match <T as Kind>::kind_mut(statistic) {
            Some(Collected::List(inner)) => Some(&mut inner.value),
            _ => None,
        }
    }
}

impl<T: Kind> StatisticType for Lanes<T> {
    open spec fn unwrapped(statistic: AnyStatistic) -> Option<Self> {
        match <T as Kind>::of_kind(statistic) {
            Some(Collected::Array(inner)) => Some(inner.value),
            _ => None,
        }
    }

    open spec fn replaced(statistic: AnyStatistic, value: Self) -> AnyStatistic {
        match <T as Kind>::of_kind(statistic) {
            Some(Collected::Array(inner)) => <T as Kind>::as_any(
                Collected::Array(PassStatistic { value, ..inner }),
            ),
            _ => statistic,
        }
    }

    fn unwrap_ref(statistic: &AnyStatistic) -> (value: Option<&Self>) {
        match <T as Kind>::kind_ref(statistic) {
            Some(Collected::Array(inner)) => Some(&inner.value),
            _ => None,
        }
    }

    fn unwrap_mut(statistic: &mut AnyStatistic) -> (value: Option<&mut Self>) {
        if Self::unwrap_ref(statistic).is_none() {
            return None;
        }
        match <T as Kind>::kind_mut(statistic) {
            Some(Collected::Array(inner)) => Some(&mut inner.value),
            _ => None,
        }
    }
}

impl<T: Kind> StatisticType for Table<T> {
    open spec fn unwrapped(statistic: AnyStatistic) -> Option<Self> {
        match <T as Kind>::of_kind(statistic) {
            Some(Collected::Table(inner)) => Some(inner.value),
            _ => None,
        }
    }

    open spec fn replaced(statistic: AnyStatistic, value: Self) -> AnyStatistic {
        match <T as Kind>::of_kind(statistic) {
            Some(Collected::Table(inner)) => <T as Kind>::as_any(
                Collected::Table(PassStatistic { value, ..inner }),
            ),
            _ => statistic,
        }
    }

    fn unwrap_ref(statistic: &AnyStatistic) -> (value: Option<&Self>) {
        match <T as Kind>::kind_ref(statistic) {
            Some(Collected::Table(inner)) => Some(&inner.value),
            _ => None,
        }
    }

    fn unwrap_mut(statistic: &mut AnyStatistic) -> (value: Option<&mut Self>) {
        if Self::unwrap_ref(statistic).is_none() {
            return None;
        }
        match <T as Kind>::kind_mut(statistic) {
            Some(Collected::Table(inner)) => Some(&mut inner.value),
            _ => None,
        }
    }
}

impl AnyStatistic {
    /// The value, if it has the given type.
    pub fn downcast_ref<T: StatisticType>(&self) -> (value: Option<&T>)
        ensures
            match value {
                Some(value) => T::unwrapped(*self) == Some(*value),
                None => T::unwrapped(*self) is None,
            },
    {
        T::unwrap_ref(self)
    }

    /// The value, if it has the given type, to be changed.
    pub fn downcast_mut<T: StatisticType>(&mut self) -> (value: Option<&mut T>)
        ensures
            match value {
                Some(value) => T::unwrapped(*old(self)) == Some(*value) && *final(self)
                    == T::replaced(*old(self), *final(value)),
                None => T::unwrapped(*old(self)) is None && *final(self) == *old(self),
            },
    {
        T::unwrap_mut(self)
    }
}

} // verus!
