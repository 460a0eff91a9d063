//! Tests of the variable context and the configuration defaults.

use rustgen::config::{default_template_path, ApplicationConfig};
use rustgen::context::{insert_default_data, VarContext};
use rustgen::rustgen_error::{ErrorKind, RustgenError};

#[test]
fn later_insertions_overwrite_earlier_ones() {
    let mut ctx = VarContext::new();
    ctx.insert("name", "first");
    ctx.insert("name", "second");
    assert_eq!(ctx.get_str("name").unwrap(), "second");
    assert!(ctx.get_str("other").is_none());
}

#[test]
fn defaults_are_folded_beneath_explicit_values() {
    // Defaults are seeded first; explicit values inserted later overwrite
    // them.
    let mut defaults = VarContext::new();
    defaults.insert("basepath", "./plugin");
    defaults.insert("name", "from-config");
    let mut data = VarContext::new();
    insert_default_data(&defaults, &mut data);
    data.insert("name", "explicit");
    assert_eq!(data.get_str("basepath").unwrap(), "./plugin");
    assert_eq!(data.get_str("name").unwrap(), "explicit");
}

#[test]
fn duplicate_is_independent_of_the_original() {
    let mut ctx = VarContext::new();
    ctx.insert("a", "1");
    let mut copy = ctx.duplicate();
    assert_eq!(copy.get_str("a").unwrap(), "1");
    copy.insert("a", "2");
    assert_eq!(ctx.get_str("a").unwrap(), "1");
    assert_eq!(copy.get_str("a").unwrap(), "2");
}

#[test]
fn config_default_uses_the_generator_directory() {
    assert_eq!(default_template_path(), "_generator");
    let config = ApplicationConfig::default();
    assert_eq!(config.template_path, "_generator");
    assert!(config.default.get_str("anything").is_none());
}

#[test]
fn error_constructors_carry_kind_and_message() {
    let e = RustgenError::new("plain message");
    assert_eq!(e.kind(), ErrorKind::Other);
    assert_eq!(e.message(), "plain message");
    assert_eq!(RustgenError::format_error("x").kind(), ErrorKind::Format);
    assert_eq!(RustgenError::schema_error("x").kind(), ErrorKind::Schema);
    assert_eq!(RustgenError::render_error("x").kind(), ErrorKind::Render);
    assert_eq!(RustgenError::io_error("x").kind(), ErrorKind::Io);
}
