//! Typed feedback for a NaN-boxing JavaScript runtime, and the generator pass of
//! its compiler.

pub mod array_facts;
pub mod array_laws;
pub mod change_laws;
pub mod classes;
pub mod contracts;
pub mod entry_laws;
pub mod equality;
pub mod feedback;
pub mod generator;
pub mod generator_laws;
pub mod guard_laws;
pub mod heap;
pub mod heap_laws;
pub mod hir;
pub mod invalidation;
pub mod kinds;
pub mod lowering_laws;
pub mod names;
pub mod number;
pub mod observation;
pub mod registry;
pub mod report_laws;
pub mod runtime_call;
pub mod site;
pub mod site_laws;
pub mod snapshot;
pub mod text;
pub mod trace;
pub mod value;
pub mod value_laws;
pub mod visitor;
pub mod work_stack;
