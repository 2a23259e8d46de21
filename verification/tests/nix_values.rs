use jettison::package::{OverridesPlan, build_inputs, native_build_inputs, overrides_plan};
use jettison::attrset::{Attrset, LiteralAttrset, MissingAttributeError, NixAttrset, NixDerivation, missing_attribute};
use jettison::build_crate::get_vendor_dir;
use jettison::builder::{AttrsetBuilder, ListBuilder, write_attrset, write_list};
use jettison::callable::{Builtins, Lazy, NixFunctor, NixLambda, Thunk};
use jettison::error::{ContextInner, Error, ErrorKind, IntType, ToError, TryFromI64Error, TypeMismatchError};
use jettison::list::{List, LiteralList, NixList, chain_exact};
use jettison::merge::{Concat, Merge};
use jettison::primop::{Arg, ArgsList, NoArgs};
use jettison::utf8_cstr::Utf8CStr;
use jettison::value::{
    Attr, BoolValue, Context, IntValue, Node, Null, NixValue, StringValue, TryFromValue, ValueKind, ValuePointer,
};

fn attrs(ctx: &mut Context, pairs: &[(&str, NixValue)]) -> NixValue {
    let attrs = pairs
        .iter()
        .map(|(k, v)| Attr { name: k.as_bytes().to_vec(), value: *v })
        .collect();
    ctx.alloc_value(Node::Attrset(attrs))
}

fn int_value(ctx: &mut Context, n: i64) -> NixValue {
    ctx.alloc_value(Node::Int(n))
}

fn string(ctx: &mut Context, s: &str) -> NixValue {
    ctx.alloc_value(Node::String(s.to_string()))
}

#[test]
fn value_kind_names_and_codes() {
    assert_eq!(ValueKind::Attrset.name(), "Attrset");
    assert_eq!(ValueKind::Thunk.name(), "Thunk");
    assert_eq!(ValueKind::from_type_code(1), ValueKind::Int);
    assert_eq!(ValueKind::from_type_code(7), ValueKind::Attrset);
    assert_eq!(ValueKind::from_type_code(10), ValueKind::External);
}

#[test]
fn value_pointers() {
    let p = ValuePointer::new(3);
    assert_eq!(p.as_ptr(), 3);
    assert_eq!(p.as_raw(), 3);
    let v = NixValue::new(p);
    assert_eq!(v.as_raw(), p);
}

#[test]
fn error_kinds_and_codes() {
    assert_eq!(ErrorKind::Unknown.code(), -1);
    assert_eq!(ErrorKind::Overflow.code(), -2);
    assert_eq!(ErrorKind::Key.code(), -3);
    assert_eq!(ErrorKind::Nix.code(), -4);
    assert_eq!(ErrorKind::from_code(0), None);
    for kind in [ErrorKind::Unknown, ErrorKind::Overflow, ErrorKind::Key, ErrorKind::Nix] {
        assert_eq!(ErrorKind::from_code(kind.code()), Some(kind));
    }
    assert_eq!(ErrorKind::Nix.description(), "a generic Nix error occurred");
    assert_eq!(ErrorKind::Key.description(), "a key/index access error occurred");
}

#[test]
fn error_messages() {
    let e = TypeMismatchError { expected: ValueKind::Int, found: ValueKind::String }.to_error();
    assert_eq!(e.kind, ErrorKind::Nix);
    assert_eq!(e.message, "type mismatch: expected Int, found String");
    let e = TryFromI64Error::new(300, IntType::U8).to_error();
    assert_eq!(e.message, "integer conversion failed: cannot convert 300i64 into target type u8");
    let e = TryFromI64Error::new(-5, IntType::U32).to_error();
    assert_eq!(e.message, "integer conversion failed: cannot convert -5i64 into target type u32");
    let e = Error::from_str(ErrorKind::Key, "oops").map_message_prefix("context: ");
    assert_eq!(e.kind, ErrorKind::Key);
    assert_eq!(e.message, "context: oops");
    assert_eq!(Error::new(ErrorKind::Unknown, "x".to_string()).message, "x");
}

#[test]
fn converting_scalars() {
    let mut ctx = Context::new();
    let n = int_value(&mut ctx, 42);
    let big = int_value(&mut ctx, 1 << 40);
    let neg = int_value(&mut ctx, -1);
    let t = ctx.alloc_value(Node::Bool(true));
    let s = string(&mut ctx, "hello");
    let null = ctx.alloc_value(Node::Null);
    assert_eq!(i64::try_from_value(n, &ctx), Ok(42));
    assert_eq!(u8::try_from_value(n, &ctx), Ok(42u8));
    assert_eq!(i32::try_from_value(big, &ctx).unwrap_err().message,
        "integer conversion failed: cannot convert 1099511627776i64 into target type i32");
    assert_eq!(u64::try_from_value(neg, &ctx).unwrap_err().message,
        "integer conversion failed: cannot convert -1i64 into target type u64");
    assert_eq!(u32::try_from_value(n, &ctx), Ok(42u32));
    assert_eq!(bool::try_from_value(t, &ctx), Ok(true));
    assert_eq!(String::try_from_value(s, &ctx), Ok("hello".to_string()));
    assert!(Null::try_from_value(null, &ctx).is_ok());
    assert_eq!(Null.kind(), ValueKind::Null);
    let err = bool::try_from_value(s, &ctx).unwrap_err();
    assert_eq!(err.kind, ErrorKind::Nix);
    assert_eq!(err.message, "type mismatch: expected Bool, found String");
    assert_eq!(Option::<i64>::try_from_value(n, &ctx), Ok(Some(42)));
    assert_eq!(NixValue::try_from_value(s, &ctx), Ok(s));
}

#[test]
fn value_traits() {
    let mut ctx = Context::new();
    let n = int_value(&mut ctx, 7);
    let b = ctx.alloc_value(Node::Bool(false));
    let s = string(&mut ctx, "abc");
    assert_eq!(n.into_int(&ctx), 7);
    assert_eq!(5u32.into_int(&ctx), 5);
    assert!(!b.into_bool(&ctx));
    assert_eq!(s.into_string(&ctx), "abc");
}

#[test]
fn forcing_thunks() {
    let mut ctx = Context::new();
    let n = int_value(&mut ctx, 9);
    let t1 = ctx.alloc_value(Node::Thunk(n));
    let t2 = ctx.alloc_value(Node::Thunk(t1));
    assert_eq!(ctx.kind(t2), ValueKind::Thunk);
    assert_eq!(ctx.force(t2), n);
    assert_eq!(i64::try_from_value(t2, &ctx), Ok(9));
    assert_eq!(Thunk::new(t2).force_into::<i64>(&ctx), Ok(9));
    let lazy = Thunk::new(t1).into_lazy::<i64>();
    assert_eq!(Lazy::<i64>::force(lazy, &ctx), Ok(9));
    let s = Thunk::new(t2).force_into::<String>(&ctx).unwrap_err();
    assert_eq!(s.message, "type mismatch: expected String, found Int");
    assert!(Thunk::try_from_value(t2, &ctx).is_ok());
}

#[test]
fn attrset_lookups() {
    let mut ctx = Context::new();
    let one = int_value(&mut ctx, 1);
    let s = string(&mut ctx, "x");
    let set = attrs(&mut ctx, &[("a", one), ("b", s)]);
    let a = NixAttrset::from_value(set, &ctx);
    assert_eq!(a.len(&ctx), 2);
    assert!(!a.is_empty(&ctx));
    assert!(a.contains_key(b"a", &ctx));
    assert!(!a.contains_key(b"c", &ctx));
    assert_eq!(a.with_value(b"b", &ctx), Some(s));
    assert_eq!(a.get::<i64>(b"a", &ctx), Ok(1));
    assert_eq!(a.get_opt::<i64>(b"c", &ctx), Ok(None));
    let missing = a.get::<i64>(b"c", &ctx).unwrap_err();
    assert_eq!(missing.kind, ErrorKind::Nix);
    assert_eq!(missing.message, "attribute 'c' missing");
    let wrong = a.get::<i64>(b"b", &ctx).unwrap_err();
    assert_eq!(wrong.message, "error getting attribute \"b\": type mismatch: expected Int, found String");
    let pairs = a.pairs(&ctx);
    assert_eq!(pairs, vec![(b"a".to_vec(), one), (b"b".to_vec(), s)]);
    assert_eq!(missing_attribute(b"outPath").message, "attribute 'outPath' missing");
}

#[test]
fn attribute_errors_escape_the_key() {
    let mut ctx = Context::new();
    let s = string(&mut ctx, "x");
    let set = attrs(&mut ctx, &[("we\"ird\tkey", s)]);
    let a = NixAttrset::from_value(set, &ctx);
    let wrong = a.get::<bool>("we\"ird\tkey".as_bytes(), &ctx).unwrap_err();
    assert_eq!(wrong.message, "error getting attribute \"we\\\"ird\\tkey\": type mismatch: expected Bool, found String");
}

#[test]
fn converting_attrsets() {
    let mut ctx = Context::new();
    let n = int_value(&mut ctx, 1);
    let set = attrs(&mut ctx, &[("a", n)]);
    let thunk = ctx.alloc_value(Node::Thunk(set));
    let a = NixAttrset::try_from_value(thunk, &ctx).unwrap();
    assert_eq!(a.as_value(), set);
    let err = NixAttrset::try_from_value(n, &ctx).unwrap_err();
    assert_eq!(err.message, "type mismatch: expected Attrset, found Int");
}

#[test]
fn derivations() {
    let mut ctx = Context::new();
    let ty = string(&mut ctx, "derivation");
    let out = string(&mut ctx, "/nix/store/abc-foo");
    let drv = attrs(&mut ctx, &[("type", ty), ("outPath", out)]);
    let d = NixDerivation::try_from_value(drv, &ctx).unwrap();
    assert_eq!(d.out_path_as_string(&ctx), Ok("/nix/store/abc-foo".to_string()));
    assert_eq!(d.len(&ctx), 2);

    let other = string(&mut ctx, "other");
    let not_drv = attrs(&mut ctx, &[("type", other)]);
    let err = NixDerivation::try_from_value(not_drv, &ctx).unwrap_err();
    assert_eq!(err.message, "not a derivation");

    let untyped = attrs(&mut ctx, &[]);
    let err = NixDerivation::try_from_value(untyped, &ctx).unwrap_err();
    assert_eq!(err.message, "attribute 'type' missing");

    let no_out = attrs(&mut ctx, &[("type", ty)]);
    let d = NixDerivation::try_from_value(no_out, &ctx).unwrap();
    assert_eq!(d.out_path_as_string(&ctx).unwrap_err().message, "attribute 'outPath' missing");
}

#[test]
fn literal_attrsets() {
    let mut ctx = Context::new();
    let one = int_value(&mut ctx, 1);
    let two = int_value(&mut ctx, 2);
    let lit = LiteralAttrset::new(vec![b"x".to_vec(), b"y".to_vec()], vec![one, two]);
    assert_eq!(lit.len(&ctx), 2);
    assert_eq!(lit.get_key(1), b"y");
    assert_eq!(lit.with_value(b"y", &ctx), Some(two));
    assert_eq!(lit.with_value(b"z", &ctx), None);
}

#[test]
fn merge_is_right_biased() {
    let mut ctx = Context::new();
    let one = int_value(&mut ctx, 1);
    let two = int_value(&mut ctx, 2);
    let three = int_value(&mut ctx, 3);
    let four = int_value(&mut ctx, 4);
    let left = LiteralAttrset::new(vec![b"a".to_vec(), b"b".to_vec()], vec![one, two]);
    let right = LiteralAttrset::new(vec![b"b".to_vec(), b"c".to_vec(), b"d".to_vec()], vec![three, four, one]);
    let m = Merge::new(left, right, &ctx);
    assert_eq!(m.len(&ctx), 4);
    assert_eq!(m.with_value(b"a", &ctx), Some(one));
    assert_eq!(m.with_value(b"b", &ctx), Some(three));
    assert_eq!(m.with_value(b"c", &ctx), Some(four));
    assert_eq!(m.with_value(b"e", &ctx), None);
    assert_eq!(
        m.pairs(&ctx),
        vec![(b"a".to_vec(), one), (b"b".to_vec(), three), (b"c".to_vec(), four), (b"d".to_vec(), one)]
    );
}

#[test]
fn merge_with_larger_left_side() {
    let mut ctx = Context::new();
    let one = int_value(&mut ctx, 1);
    let two = int_value(&mut ctx, 2);
    let left = LiteralAttrset::new(vec![b"z".to_vec(), b"y".to_vec(), b"x".to_vec()], vec![one, one, one]);
    let right = LiteralAttrset::new(vec![b"x".to_vec(), b"z".to_vec()], vec![two, two]);
    let m = Merge::new(left, right, &ctx);
    assert_eq!(m.len(&ctx), 3);
    assert_eq!(m.pairs(&ctx), vec![(b"z".to_vec(), two), (b"y".to_vec(), one), (b"x".to_vec(), two)]);
}

#[test]
fn concat_of_disjoint_attrsets() {
    let mut ctx = Context::new();
    let one = int_value(&mut ctx, 1);
    let two = int_value(&mut ctx, 2);
    let set = attrs(&mut ctx, &[("a", one)]);
    let left = NixAttrset::from_value(set, &ctx);
    let right = LiteralAttrset::new(vec![b"b".to_vec()], vec![two]);
    let c = Concat::new(left, right, &ctx);
    assert_eq!(c.len(&ctx), 2);
    assert_eq!(c.with_value(b"a", &ctx), Some(one));
    assert_eq!(c.with_value(b"b", &ctx), Some(two));
    assert_eq!(c.pairs(&ctx), vec![(b"a".to_vec(), one), (b"b".to_vec(), two)]);
}

#[test]
fn writing_then_reading_an_attrset() {
    let mut ctx = Context::new();
    let one = int_value(&mut ctx, 1);
    let two = int_value(&mut ctx, 2);
    let left = LiteralAttrset::new(vec![b"a".to_vec(), b"b".to_vec()], vec![one, two]);
    let right = LiteralAttrset::new(vec![b"b".to_vec()], vec![one]);
    let m = Merge::new(left, right, &ctx);
    let expected = m.pairs(&ctx);
    let written = write_attrset(&m, &mut ctx);
    assert_eq!(written.pairs(&ctx), expected);
    assert_eq!(written.get::<i64>(b"b", &ctx), Ok(1));
    assert_eq!(ctx.kind(written.as_value()), ValueKind::Attrset);
}

#[test]
fn building_attrsets_and_lists() {
    let mut ctx = Context::new();
    let one = int_value(&mut ctx, 1);
    let mut b = AttrsetBuilder::new(1);
    b.insert(b"k".to_vec(), one, &ctx);
    let v = b.build(&mut ctx);
    assert_eq!(NixAttrset::from_value(v, &ctx).get::<i64>(b"k", &ctx), Ok(1));
    let mut l = ListBuilder::new(2);
    l.insert(one);
    l.insert(v);
    let lv = l.build(&mut ctx);
    let list = NixList::try_from_value(lv, &ctx).unwrap();
    assert_eq!(list.len(&ctx), 2);
    assert_eq!(list.get::<i64>(0, &ctx), Ok(1));
    assert_eq!(list.items(&ctx), vec![one, v]);
}

#[test]
fn lists_and_concatenation() {
    let mut ctx = Context::new();
    let one = int_value(&mut ctx, 1);
    let two = int_value(&mut ctx, 2);
    let three = int_value(&mut ctx, 3);
    let left = LiteralList::new(vec![one, two]);
    let right = LiteralList::new(vec![three]);
    let c = jettison::list::Concat::new(left, right);
    assert_eq!(c.len(&ctx), 3);
    assert_eq!(c.with_value(2, &ctx), three);
    assert!(!c.is_empty(&ctx));
    let written = write_list(&c, &mut ctx);
    assert_eq!(written.items(&ctx), vec![one, two, three]);
    assert_eq!(written.get::<i64>(1, &ctx), Ok(2));
    let err = NixList::try_from_value(one, &ctx).unwrap_err();
    assert_eq!(err.message, "type mismatch: expected List, found Int");
}

#[test]
fn chaining_exactly() {
    let mut chain = chain_exact(vec![1u32, 2], vec![3u32]);
    assert_eq!(chain.len(), 3);
    assert_eq!(chain.next(), Some(1));
    assert_eq!(chain.len(), 2);
    assert_eq!(chain.next(), Some(2));
    assert_eq!(chain.next(), Some(3));
    assert_eq!(chain.len(), 0);
    assert_eq!(chain.next(), None);
    let mut empty_left = chain_exact(Vec::<u32>::new(), vec![7u32]);
    assert_eq!(empty_left.next(), Some(7));
    assert_eq!(empty_left.next(), None);
}

#[test]
fn functions_and_functors() {
    let mut ctx = Context::new();
    let f = ctx.alloc_value(Node::Function(1));
    let thunk = ctx.alloc_value(Node::Thunk(f));
    let lambda = NixLambda::try_from_value(thunk, &ctx).unwrap();
    assert_eq!(lambda.as_value(), f);
    let n = int_value(&mut ctx, 1);
    assert_eq!(NixLambda::try_from_value(n, &ctx).unwrap_err().message, "type mismatch: expected Function, found Int");

    let functor = attrs(&mut ctx, &[("__functor", thunk)]);
    assert!(NixFunctor::try_from_value(functor, &ctx).is_ok());
    let bad = attrs(&mut ctx, &[("__functor", n)]);
    assert_eq!(NixFunctor::try_from_value(bad, &ctx).unwrap_err().message, "type mismatch: expected Function, found Int");
    let none = attrs(&mut ctx, &[]);
    assert_eq!(NixFunctor::try_from_value(none, &ctx).unwrap_err().message, "attribute '__functor' missing");
}

#[test]
fn builtins_fetch_git() {
    let mut ctx = Context::new();
    let f = ctx.alloc_value(Node::Function(42));
    let set = attrs(&mut ctx, &[("fetchGit", f)]);
    ctx.set_builtins(set);
    let builtins = Builtins::new(&ctx);
    assert_eq!(builtins.fetch_git(&ctx).as_value(), f);
}

#[test]
fn primop_arguments() {
    let mut ctx = Context::new();
    let n = int_value(&mut ctx, 5);
    let args = ArgsList::new(vec![Some(n), None]);
    assert_eq!(args.get::<i64>(0, &ctx), Ok(5));
    let err = args.get::<i64>(1, &ctx).unwrap_err();
    assert_eq!(err.kind, ErrorKind::Overflow);
    assert_eq!(err.message, "argument is NULL");
    assert!(NoArgs::from_raw(&args, &ctx).is_ok());
    assert_eq!(NoArgs::arity(), 0);
    assert_eq!(i64::try_from_arg(n, &ctx), Ok(5));
    assert_eq!(<NixValue as Arg>::try_from_arg(n, &ctx), Ok(n));
}

#[test]
fn lists_convert_item_by_item() {
    let mut ctx = Context::new();
    let a = int_value(&mut ctx, 1);
    let b = int_value(&mut ctx, 2);
    let list = ctx.alloc_value(Node::List(vec![a, b]));
    let ints: Vec<i64> = Vec::try_from_value(list, &ctx).unwrap();
    assert_eq!(ints, vec![1, 2]);

    let t = ctx.alloc_value(Node::Bool(true));
    let s = ctx.alloc_value(Node::String("x".to_string()));
    let mixed = ctx.alloc_value(Node::List(vec![a, t, s]));
    let err = <Vec<i64>>::try_from_value(mixed, &ctx).unwrap_err();
    assert_eq!(err.message, "type mismatch: expected Int, found Bool");

    let not_a_list = int_value(&mut ctx, 3);
    let err = <Vec<i64>>::try_from_value(not_a_list, &ctx).unwrap_err();
    assert_eq!(err.message, "type mismatch: expected List, found Int");
}

#[test]
fn utf8_c_strings() {
    let name = Utf8CStr::new("fetchGit".as_bytes()).unwrap();
    assert_eq!(name.to_bytes(), b"fetchGit");
    assert_eq!(name.as_str(), "fetchGit");
    let accented = Utf8CStr::new("caf\u{e9}".as_bytes()).unwrap();
    assert_eq!(accented.as_str(), "café");
    assert!(Utf8CStr::new(&[0x66, 0xff, 0x6f]).is_err());
    assert_eq!(Utf8CStr::new_unchecked(b"x").as_str(), "x");
}

#[test]
fn missing_attribute_names_are_decoded() {
    assert_eq!(missing_attribute("café".as_bytes()).message, "attribute 'café' missing");
    assert_eq!(missing_attribute(&[0x61, 0xff]).message, "attribute 'a\u{fffd}' missing");
}

#[test]
fn errors_reported_to_a_context_are_read_back() {
    let mismatch = TypeMismatchError { expected: ValueKind::List, found: ValueKind::Null };
    assert_eq!(mismatch.kind(), ErrorKind::Nix);
    assert_eq!(mismatch.format_message(), "type mismatch: expected List, found Null");
    let overflow = TryFromI64Error::new(-1, IntType::U8);
    assert_eq!(overflow.format_message(), "integer conversion failed: cannot convert -1i64 into target type u8");

    let mut ctx = ContextInner::new();
    assert!(ctx.check_err().is_ok());
    let e = ctx.make_error(&(ErrorKind::Key, "no such key".to_string()));
    assert_eq!(e.kind, ErrorKind::Key);
    let back = ctx.check_err().unwrap_err();
    assert_eq!(back.kind, ErrorKind::Key);
    assert_eq!(back.message, "no such key");

    let e = ctx.make_error(&mismatch);
    assert_eq!(e.message, "type mismatch: expected List, found Null");
    assert_eq!(ctx.check_err().unwrap_err().message, e.message);

    let missing = MissingAttributeError { attrset: (), attr: b"src".to_vec() };
    assert_eq!(missing.kind(), ErrorKind::Nix);
    assert_eq!(missing.format_message(), "attribute 'src' missing");
    assert_eq!(ctx.make_error(&missing).message, "attribute 'src' missing");
}

#[test]
fn vendor_directory_arguments() {
    let mut ctx = Context::new();
    let ty = string(&mut ctx, "derivation");
    let out = string(&mut ctx, "/nix/store/abc-vendored");
    let drv = attrs(&mut ctx, &[("type", ty), ("outPath", out)]);
    assert_eq!(get_vendor_dir(drv, &ctx), Ok("/nix/store/abc-vendored".to_string()));

    let path = ctx.alloc_value(Node::Path("/tmp/vendor".to_string()));
    assert_eq!(get_vendor_dir(path, &ctx), Ok("/tmp/vendor".to_string()));
    let text = string(&mut ctx, "/srv/vendor");
    let lazy = ctx.alloc_value(Node::Thunk(text));
    assert_eq!(get_vendor_dir(lazy, &ctx), Ok("/srv/vendor".to_string()));

    let number = int_value(&mut ctx, 1);
    let err = get_vendor_dir(number, &ctx).unwrap_err();
    assert_eq!(err.kind, ErrorKind::Nix);
    assert_eq!(err.message, "expected \"vendorDir\" to be a derivation, path, or string");

    let plain = attrs(&mut ctx, &[("outPath", out)]);
    assert_eq!(get_vendor_dir(plain, &ctx).unwrap_err().message, "attribute 'type' missing");
}

#[test]
fn the_heap_grows_by_one_node_per_value() {
    let mut ctx = Context::new();
    assert_eq!(ctx.heap_len(), 1);
    let v = int_value(&mut ctx, 7);
    assert_eq!(ctx.heap_len(), 2);
    assert_eq!(ctx.kind(v), ValueKind::Int);
    assert_eq!(ctx.builtins_value().as_raw().as_ptr(), 0);
}

#[test]
fn crate_overrides_are_planned() {
    let mut ctx = Context::new();
    let one = int_value(&mut ctx, 1);
    let old_version = string(&mut ctx, "0.0.0");
    let global_value = attrs(&mut ctx, &[("a", one), ("version", old_version)]);
    let global = Some(NixAttrset::try_from_value(global_value, &ctx).unwrap());
    let fun = ctx.alloc_value(Node::Function(7));
    let not_fun = int_value(&mut ctx, 2);
    let overrides_value = attrs(&mut ctx, &[("serde", fun), ("bad", not_fun)]);
    let overrides = Some(NixAttrset::try_from_value(overrides_value, &ctx).unwrap());

    assert!(matches!(overrides_plan(global, None, b"serde", "1.0.0", &mut ctx), Ok(OverridesPlan::Global)));
    assert!(matches!(overrides_plan(global, overrides, b"anyhow", "1.0.0", &mut ctx), Ok(OverridesPlan::Global)));
    let err = overrides_plan(global, overrides, b"bad", "1.0.0", &mut ctx).err().unwrap();
    assert_eq!(err.message, "error getting attribute \"bad\": type mismatch: expected Function, found Int");

    let before = ctx.heap_len();
    match overrides_plan(global, overrides, b"serde", "1.0.0", &mut ctx) {
        Ok(OverridesPlan::Call { fun: f, args }) => {
            assert_eq!(f.as_value(), fun);
            assert_eq!(ctx.heap_len(), before + 1);
            let pairs = args.pairs(&ctx);
            assert_eq!(pairs.len(), 2);
            assert_eq!(pairs[0], (b"a".to_vec(), one));
            assert_eq!(pairs[1].0, b"version".to_vec());
            assert_eq!(String::try_from_value(pairs[1].1, &ctx), Ok("1.0.0".to_string()));
        },
        _ => panic!("expected a call of the override function"),
    }
}

#[test]
fn inputs_of_a_crate_derivation() {
    let mut ctx = Context::new();
    let v: Vec<NixValue> = (0..7).map(|n| int_value(&mut ctx, n)).collect();
    assert_eq!(build_inputs(Some(v[0]), None, v[1], &vec![v[2], v[3]], &vec![v[4]]), vec![v[0], v[1], v[2], v[3], v[4]]);
    assert_eq!(build_inputs(None, Some(v[5]), v[1], &vec![], &vec![]), vec![v[5], v[1]]);
    assert_eq!(native_build_inputs(v[5], v[6], &vec![v[0]]), vec![v[5], v[6], v[0]]);
}
