pub mod aload_0;
pub mod arithmetic;
pub mod array_ops;
pub mod constants;
pub mod control;
pub mod control_extended;
pub mod field_ops;
pub mod iinc;
pub mod invokespecial;
pub mod invokestatic;
pub mod invokevirtual;
pub mod ldc_ops;
pub mod load_store;
pub mod method_utils;
pub mod object_ops;
pub mod stack;
pub mod table;
