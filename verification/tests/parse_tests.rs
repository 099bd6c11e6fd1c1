use flexon::config::{Config, RTConfig, CTConfig};
use flexon::error::Error;
use flexon::number::Number;
use flexon::value::{JsonString, Value};
use flexon::pointer::{JsonPointer, Pointer};
use flexon::find_comment::FindComment;
use flexon::source::{NullPadded, Slice, Source};
use flexon::lazy::{LazyObject, Raw};
use flexon::decimal::{long_to_binary, number_of_new_digits, parse_decimal, Decimal};
use flexon::parser::skip_value;
use flexon::pointer::get_from;

fn parse(src: &str) -> Result<flexon::span::Span<Value>, flexon::span::Span<Error>> {
    flexon::parse(src)
}

#[test]
fn object_with_nested_array() {
    let v = parse("{\"a\":1,\"b\":[true,null,false]}").unwrap();
    let obj = v.data().as_object().unwrap();
    assert_eq!(obj.len(), 2);
    let a = obj.get(b"a").unwrap();
    assert_eq!(a.data().as_u64(), Some(1));
    let b = obj.get(b"b").unwrap();
    let arr = b.data().as_array().unwrap();
    assert_eq!(arr.len(), 3);
    assert_eq!(arr[0].data().as_bool(), Some(true));
    assert!(arr[1].data().is_null());
    assert_eq!(arr[2].data().as_bool(), Some(false));
    // keys visited in order a, b
    let pairs = &obj.0;
    assert_eq!(pairs[0].0.data().as_bytes(), b"a");
    assert_eq!(pairs[1].0.data().as_bytes(), b"b");
}

#[test]
fn trailing_comma_rejected_then_allowed() {
    let e = parse("[1, 2, 3,]").unwrap_err();
    assert_eq!(*e.data(), Error::TrailingComma);
    assert_eq!(e.start(), 8);
    let v = flexon::parse_with("[1, 2, 3,]", true, true).unwrap();
    let arr = v.data().as_array().unwrap();
    assert_eq!(arr.len(), 3);
    assert_eq!(arr[2].data().as_u64(), Some(3));
}

#[test]
fn number_overflow_and_extremes() {
    let e = parse("1e400").unwrap_err();
    assert_eq!(*e.data(), Error::NumberOverflow);
    let v = parse("1.7976931348623157e308").unwrap();
    assert_eq!(v.data().as_float_bits(), Some(f64::MAX.to_bits()));
    let v = parse("2.2250738585072014e-308").unwrap();
    assert_eq!(v.data().as_float_bits(), Some(f64::MIN_POSITIVE.to_bits()));
}

#[test]
fn surrogate_pair_decodes_to_four_utf8_bytes() {
    let v = parse("\"\\uD834\\uDD1E\"").unwrap();
    let s = v.data().as_str().unwrap();
    assert_eq!(s.as_bytes(), &[0xF0, 0x9D, 0x84, 0x9E]);
}

#[test]
fn comments_only_when_enabled() {
    let cfg_on = RTConfig::new().allow_comments(true);
    let v = flexon::parse_with_config("{\"x\": /* ignore */ 1}", &cfg_on).unwrap();
    let obj = v.data().as_object().unwrap();
    assert_eq!(obj.get(b"x").unwrap().data().as_u64(), Some(1));
    let e = parse("{\"x\": /* ignore */ 1}").unwrap_err();
    assert_eq!(*e.data(), Error::UnexpectedToken);
}

#[test]
fn unclosed_string_spans_to_eof() {
    let e = parse("\"abc").unwrap_err();
    assert_eq!(*e.data(), Error::UnclosedString);
    assert_eq!(e.start(), 0);
    assert_eq!(e.end(), 4);
}

#[test]
fn integer_preference() {
    assert_eq!(parse("0").unwrap().data().as_u64(), Some(0));
    assert_eq!(parse("18446744073709551615").unwrap().data().as_u64(), Some(u64::MAX));
    assert_eq!(parse("-1").unwrap().data().as_i64(), Some(-1));
    assert_eq!(parse("-9223372036854775808").unwrap().data().as_i64(), Some(i64::MIN));
    // one past each integer range becomes a float
    let v = parse("18446744073709551616").unwrap();
    assert_eq!(v.data().as_float_bits(), Some(18446744073709551616.0f64.to_bits()));
    let v = parse("-9223372036854775809").unwrap();
    assert_eq!(v.data().as_float_bits(), Some((-9223372036854775809.0f64).to_bits()));
}

#[test]
fn float_round_trip_samples() {
    for txt in ["3.141592653589793", "2.718281828459045", "1e-7", "123456.789e3", "0.1", "-0.5"] {
        let v = parse(txt).unwrap();
        let expect: f64 = fast_float2::parse(txt).unwrap();
        assert_eq!(v.data().as_float_bits(), Some(expect.to_bits()), "{}", txt);
    }
}

#[test]
fn no_tail_allowed() {
    let e = parse("1 2").unwrap_err();
    assert_eq!(*e.data(), Error::UnexpectedToken);
    assert_eq!(e.start(), 2);
    assert!(parse(" 1 ").is_ok());
}

#[test]
fn error_variants() {
    assert_eq!(*parse("").unwrap_err().data(), Error::Eof);
    assert_eq!(*parse(".5").unwrap_err().data(), Error::LeadingDecimal);
    assert_eq!(*parse("5.").unwrap_err().data(), Error::TrailingDecimal);
    assert_eq!(*parse("-x").unwrap_err().data(), Error::MissingDigitAfterNegative);
    assert_eq!(*parse("01").unwrap_err().data(), Error::LeadingZero);
    assert_eq!(*parse("1e").unwrap_err().data(), Error::ExpectedExponentValue);
    assert_eq!(*parse("tru").unwrap_err().data(), Error::InvalidLiteral);
    assert_eq!(*parse("treu").unwrap_err().data(), Error::InvalidLiteral);
    assert_eq!(*parse("\"\\q\"").unwrap_err().data(), Error::InvalidEscapeSequnce);
    assert_eq!(*parse("\"\u{1}\"").unwrap_err().data(), Error::ControlCharacter);
    assert_eq!(*parse("{\"a\" 1}").unwrap_err().data(), Error::ExpectedColon);
    assert_eq!(*parse("[1 2]").unwrap_err().data(), Error::Expected(','));
    assert_eq!(*parse("@").unwrap_err().data(), Error::UnexpectedToken);
}

#[test]
fn optional_commas() {
    let v = flexon::parse_with("[1 2 3]", false, false).unwrap();
    assert_eq!(v.data().as_array().unwrap().len(), 3);
    let v = flexon::parse_with("[1, 2, 3,]", false, false).unwrap();
    assert_eq!(v.data().as_array().unwrap().len(), 3);
}

#[test]
fn escapes_decode() {
    let v = parse("\"a\\n\\t\\\"\\\\\\/\\b\\f\\r\\u0041\"").unwrap();
    let s = v.data().as_str().unwrap();
    assert_eq!(s.as_bytes(), b"a\n\t\"\\/\x08\x0c\rA");
}

#[test]
fn spans_track_values() {
    let v = parse(" [10, true]").unwrap();
    assert_eq!(v.start(), 1);
    assert_eq!(v.end(), 11);
    let arr = v.data().as_array().unwrap();
    assert_eq!(arr[0].start(), 2);
    assert_eq!(arr[0].end(), 4);
}

#[test]
fn config_builders() {
    let c = RTConfig::new();
    assert!(c.comma());
    assert!(!c.trailing_comma());
    assert!(!c.comments());
    let c = c.require_comma(false);
    assert!(!c.comma());
    let c = RTConfig::new().allow_trailing_comma(true).allow_comments(true);
    assert!(c.trailing_comma());
    assert!(c.comments());
}

#[test]
fn duplicate_keys_first_match() {
    let v = parse("{\"k\":1,\"k\":2}").unwrap();
    let obj = v.data().as_object().unwrap();
    assert_eq!(obj.len(), 2);
    assert_eq!(obj.get(b"k").unwrap().data().as_u64(), Some(1));
}

#[test]
fn json_string_helpers() {
    let s = JsonString::from_slice(b"hello");
    assert_eq!(s.len(), 5);
    assert!(s.eq_bytes(b"hello"));
    assert!(!s.eq_bytes(b"hellp"));
}

#[test]
fn number_accessors() {
    let n = Number::Unsigned(7);
    assert_eq!(n.as_u64(), Some(7));
    assert!(n.is_u64() && !n.is_i64() && !n.is_f64());
    let n = Number::Signed(-7);
    assert_eq!(n.as_i64(), Some(-7));
    let n = Number::Float(1.5f64.to_bits());
    assert_eq!(n.as_float_bits(), Some(1.5f64.to_bits()));
}

#[test]
fn comments_collected() {
    let cfg = RTConfig::new().allow_comments(true);
    let (v, cmts) = flexon::parse_with_comments("// head\n[1] /* tail */", &cfg).unwrap();
    assert_eq!(v.data().as_array().unwrap().len(), 1);
    assert_eq!(cmts.len(), 2);
    assert_eq!(cmts[0].as_bytes(), b" head");
    assert!(!cmts[0].is_multiline());
    assert_eq!(cmts[1].as_bytes(), b" tail ");
    assert!(cmts[1].is_multiline());
    assert_eq!(cmts[0].start(), 0);
    assert_eq!(cmts[0].end(), 7);
}

#[test]
fn pointer_walks_users_path() {
    let v = parse("{\"users\":[{\"name\":\"Walter\"}]}").unwrap();
    let path = [Pointer::Key("users"), Pointer::Index(0), Pointer::Key("name")];
    let got = v.pointer(&path).unwrap();
    assert_eq!(got.data().as_str().unwrap().as_bytes(), b"Walter");
    // missing key and wrong shape yield nothing
    assert!(v.pointer(&[Pointer::Key("nope")]).is_none());
    assert!(v.pointer(&[Pointer::Index(0)]).is_none());
    assert!(v.pointer(&[Pointer::Key("users"), Pointer::Index(1)]).is_none());
    // the empty path is the value itself
    assert!(v.pointer(&[]).unwrap().data().is_object());
}

#[test]
fn pointer_first_match_for_duplicates() {
    let v = parse("{\"k\":1,\"k\":2}").unwrap();
    let got = v.pointer(&[Pointer::Key("k")]).unwrap();
    assert_eq!(got.data().as_u64(), Some(1));
}

#[test]
fn json_pointer_steps() {
    assert_eq!(Pointer::Key("a").as_key(), Some("a"));
    assert_eq!(Pointer::Key("a").as_index(), None);
    assert_eq!(Pointer::Index(3).as_index(), Some(3));
    assert_eq!(Pointer::Index(3).as_key(), None);
    assert_eq!(7usize.as_index(), Some(7));
    assert_eq!(7usize.as_key(), None);
}

#[test]
fn metadata_lines_and_comments() {
    let cfg = RTConfig::new().allow_comments(true);
    let src = "// one\n[1,\n2] // two\n";
    let (v, md) = flexon::parse_with_metadata(src, &cfg).unwrap();
    assert_eq!(v.data().as_array().unwrap().len(), 2);
    assert_eq!(md.lines, vec![6, 10, 20]);
    assert_eq!(md.line_index(0), 0);
    assert_eq!(md.line_index(6), 1);
    assert_eq!(md.line_index(7), 1);
    assert_eq!(md.line_index(20), 3);
    assert_eq!(md.line_index(99), 3);
    let c = md.find_comment(2).unwrap();
    assert_eq!(c.as_bytes(), b" one");
    assert!(md.find_comment(8).is_none());
    // line 0 ends inside the first comment
    let c = md.find_comment_by_line(0).unwrap();
    assert_eq!(c.as_bytes(), b" one");
    assert!(md.find_comment_by_line(1).is_none());
    let c = md.find_comment_by_line(2).unwrap();
    assert_eq!(c.as_bytes(), b" two");
    assert!(md.find_comment_by_line(9).is_none());
}

#[test]
fn slice_sources() {
    let sl = Slice::from_str("[1]");
    assert_eq!(sl.bytes(), b"[1]");
    assert_eq!(Source::len(&sl), 3);
    assert!(Slice::from_bytes(b"ok").is_some());
    assert!(Slice::from_bytes(&[0xFF, 0xFE]).is_none());
}

#[test]
fn null_padded_source() {
    let mut np = NullPadded::new();
    assert_eq!(Source::len(&np), 0);
    np.write_str("{\"a\": 3}");
    assert_eq!(np.bytes(), b"{\"a\": 3}");
    let v = flexon::parse_bytes_with_config(np.bytes(), &flexon::config::RTConfig::new()).unwrap();
    assert_eq!(v.data().as_object().unwrap().get(b"a").unwrap().data().as_u64(), Some(3));
    // shrinking reuses the buffer
    np.write_str("9");
    assert_eq!(np.bytes(), b"9");
    let np2 = NullPadded::from_str("[true]");
    assert_eq!(np2.bytes(), b"[true]");
}

#[test]
fn ct_config_builder() {
    let c = CTConfig::new();
    assert!(c.comma() && !c.trailing_comma() && !c.comments());
    let c = CTConfig::new().optional_comma();
    assert!(!c.comma() && c.trailing_comma());
    let c = CTConfig::new().allow_trailing_comma().allow_comments();
    assert!(c.comma() && c.trailing_comma() && c.comments());
}

#[test]
fn raw_materializes_on_demand() {
    let src = b"   [1, \"x\"]  junk";
    let raw = Raw::new(src, 0);
    let (v, next) = raw.materialize(true, false, false).unwrap();
    let arr = v.data().as_array().unwrap();
    assert_eq!(arr[0].data().as_u64(), Some(1));
    assert_eq!(arr[1].data().as_str().unwrap().as_bytes(), b"x");
    assert_eq!(next, 11);
}

#[test]
fn parser_front_end() {
    let p = flexon::Parser::new(true, true).allow_comments();
    let v = p.parse("[1, /*c*/ 2,]").unwrap();
    assert_eq!(v.data().as_array().unwrap().len(), 2);
}

#[test]
fn decimal_shift_and_round() {
    // 1.5: one integer digit, one fraction digit
    let src = b"1.5";
    let mut d = parse_decimal(src, false, 0, 1, 2, 3, false, 0);
    assert_eq!(d.num_digits, 2);
    assert_eq!(d.decimal_point, 1);
    let am = long_to_binary(&mut d);
    let bits = (am.mantissa | (am.power2 as u64) << 52) as u64;
    assert_eq!(bits, 1.5f64.to_bits());
    // 0.5
    let src = b"0.5";
    let mut d = parse_decimal(src, false, 0, 1, 2, 3, false, 0);
    let am = long_to_binary(&mut d);
    let bits = (am.mantissa | (am.power2 as u64) << 52) as u64;
    assert_eq!(bits, 0.5f64.to_bits());
    // 3e2 = 300
    let src = b"3e2";
    let mut d = parse_decimal(src, false, 0, 1, 1, 1, false, 2);
    let am = long_to_binary(&mut d);
    let bits = (am.mantissa | (am.power2 as u64) << 52) as u64;
    assert_eq!(bits, 300.0f64.to_bits());
    // digit building blocks
    let mut d = Decimal::new();
    d.try_add_digit(4);
    d.try_add_digit(2);
    d.try_add_digit(0);
    d.trim();
    assert_eq!(d.num_digits, 2);
    d.decimal_point = 2;
    assert_eq!(d.round(), 42);
}

#[test]
fn decimal_extremes() {
    // far out of range flushes to zero or infinity
    let src = b"1e999";
    let mut d = parse_decimal(src, false, 0, 1, 1, 1, false, 999);
    let am = long_to_binary(&mut d);
    assert_eq!(am.power2, 0x7FF);
    let src = b"1e999";
    let mut d = parse_decimal(src, false, 0, 1, 1, 1, true, 999);
    let am = long_to_binary(&mut d);
    assert_eq!(am.power2, 0);
    assert_eq!(am.mantissa, 0);
}

#[test]
fn skip_value_measures_extents() {
    let s = b"  [1, {\"k\": true}]  tail";
    assert_eq!(skip_value(s, true, false, false, 0).unwrap(), 18);
    // skipping from inside the array measures the inner value
    assert_eq!(skip_value(s, true, false, false, 3).unwrap(), 4);
    assert_eq!(skip_value(s, true, false, false, 6).unwrap(), 17);
    let e = skip_value(b"[1,]", true, false, false, 0).unwrap_err();
    assert_eq!(*e.data(), flexon::error::Error::TrailingComma);
}

#[test]
fn get_from_descends_without_keeping_siblings() {
    let s = b"{\"users\":[{\"name\":\"Walter\"}],\"other\":[1,2,3]}";
    let path = [Pointer::Key("users"), Pointer::Index(0), Pointer::Key("name")];
    let v = get_from(s, &path, true, false, false).unwrap().unwrap();
    assert_eq!(v.data().as_str().unwrap().as_bytes(), b"Walter");
    // unresolvable paths
    assert!(get_from(s, &[Pointer::Key("missing")], true, false, false).unwrap().is_none());
    assert!(get_from(s, &[Pointer::Key("users"), Pointer::Index(9)], true, false, false)
        .unwrap()
        .is_none());
    assert!(get_from(s, &[Pointer::Index(0)], true, false, false).unwrap().is_none());
    // a parse error surfaces as the error
    assert!(get_from(b"{", &path, true, false, false).is_err());
}

#[test]
fn decimal_digit_contracts() {
    // parse_decimal stores the token's digits
    let s = b"10250";
    let d = parse_decimal(s, false, 0, 5, 5, 5, false, 0);
    assert_eq!(d.num_digits, 4); // trailing zero dropped
    assert_eq!(&d.digits[..4], &[1, 0, 2, 5]);
    assert_eq!(d.decimal_point, 5);
    // the new-digit count follows the packed table of 5^shift
    let mut one = Decimal::new();
    one.try_add_digit(1);
    assert_eq!(number_of_new_digits(&one, 1), 0); // 1*2 = 2: no new digit
    let mut nine = Decimal::new();
    nine.try_add_digit(9);
    assert_eq!(number_of_new_digits(&nine, 1), 1); // 9*2 = 18: one new digit
}

#[test]
fn require_comma_revokes_trailing() {
    let c = RTConfig::new().allow_trailing_comma(true).require_comma(true);
    assert!(c.comma());
    assert!(!c.trailing_comma());
    let c = RTConfig::new().require_comma(false);
    assert!(!c.comma());
    assert!(c.trailing_comma());
}

#[test]
fn hard_rounding_inputs_resolve() {
    // more than 19 significant digits forcing the truncation path; the
    // 128-bit stage and, where it cannot decide, the fallback must agree
    // with the reference conversion
    for txt in [
        "2.470328229206232720882843964341106861825299013071623822127928412503377536351043e-324",
        "1.00000000000000188558920870223463870174566569661053054e22",
        "7.2057594037927933e16",
        "29007977777777777777777777777777777777777.0e-10",
    ] {
        let v = parse(txt).unwrap();
        let expect: f64 = fast_float2::parse(txt).unwrap();
        assert_eq!(v.data().as_float_bits(), Some(expect.to_bits()), "{}", txt);
    }
}

#[test]
fn lazy_object_memoizes_members() {
    let s = b" {\"a\": [1, 2], \"b\": null, \"a\": 9} ";
    let mut lo = LazyObject::new(s, 0, true, false, false).unwrap().unwrap();
    let a = lo.get(b"a").unwrap().unwrap();
    assert_eq!(a.data().as_array().unwrap().len(), 2);
    // repeated query is served from the cache, first match still
    let a2 = lo.get(b"a").unwrap().unwrap();
    assert_eq!(a2.data().as_array().unwrap().len(), 2);
    assert!(lo.get(b"b").unwrap().unwrap().data().is_null());
    assert!(lo.get(b"missing").unwrap().is_none());
    // a non-object extent is not a lazy object
    assert!(LazyObject::new(b"[1]", 0, true, false, false).unwrap().is_none());
    assert!(LazyObject::new(b"{", 0, true, false, false).is_err());
}
