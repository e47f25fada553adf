pub mod adjacent_overload_signatures;
pub mod array_type;
pub mod ban_ts_comment;
pub mod ban_tslint_comment;
pub mod ban_types;
pub mod class_literal_property_style;
pub mod class_methods_use_this;
pub mod consistent_generic_constructors;
pub mod consistent_indexed_object_style;
pub mod consistent_type_definitions;
pub mod default_param_last;
