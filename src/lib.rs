//! A vector whose elements can be borrowed one at a time, each under its own
//! runtime borrow state, so that exclusive access to two distinct elements can
//! be held at once.

mod error;
mod laws;
mod model;
mod state;
mod vec_cell;

pub use error::Error;
pub use laws::{
    lemma_disjoint_exclusive, lemma_exclusive_refused_while_held, lemma_iter_refused_iff_exclusive_held,
    lemma_out_of_bounds, lemma_release_frees,
};
pub use model::VecCellView;
pub use state::BorrowState;
pub use vec_cell::{Ref, RefMut, VecCell};
