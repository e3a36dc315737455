use std::any::Any;
use std::sync::Arc;

use arc_swap::ArcSwap;
use vstd::prelude::*;

verus! {

/// Marker for values that may be stored: they must be safe to share across threads.
pub trait CacheItem: Send + Sync {
}

/// The per-key cell: an atomically replaceable reference to a type-erased value.
///
/// The erased value is a boxed `Arc<T>`, so a successful typed read hands out a
/// shared handle to the caller's value that stays valid whatever later happens
/// to the cell or to the store.
// Opaque to the verifier, which does not take `dyn` over several traits: the
// erased type lives only in these two structs and the bodies of their methods.
#[verifier::external_body]
pub struct CacheObject {
    cell: ArcSwap<Box<dyn Any + Send + Sync>>,
}

/// An erased value loaded out of a cell: a shared handle that stays valid whatever
/// later happens to the cell or to the store.
#[verifier::external_body]
pub struct ErasedValue {
    value: Arc<Box<dyn Any + Send + Sync>>,
}

impl CacheObject {
    /// Relies on `arc_swap::ArcSwap::new`: a fresh cell holding `value`, erased
    /// behind a shared handle.
    #[verifier::external_body]
    pub(crate) fn erase<T: 'static + CacheItem>(value: T) -> (r: CacheObject) {
        let erased: Box<dyn Any + Send + Sync> = Box::new(Arc::new(value));
        CacheObject { cell: ArcSwap::new(Arc::new(erased)) }
    }

    /// Relies on `arc_swap::ArcSwap::load_full`: the erased value that the cell
    /// holds now.
    #[verifier::external_body]
    pub(crate) fn load(&self) -> (r: ErasedValue) {
        ErasedValue { value: self.cell.load_full() }
    }
}

impl ErasedValue {
    /// Relies on `Any::downcast_ref`: a clone of the stored `Arc<T>` when the value
    /// was stored as a `T`, `None` when it is of another type.
    #[verifier::external_body]
    pub(crate) fn downcast<T: 'static + CacheItem>(&self) -> (r: Option<Arc<T>>) {
        self.value.downcast_ref::<Arc<T>>().map(|value| value.to_owned())
    }
}

} // verus!
