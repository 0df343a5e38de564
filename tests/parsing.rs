use power_flow::raw::{
    parse_raw_bus, parse_raw_buses, parse_raw_case, parse_raw_case_id, parse_raw_load,
    parse_raw_loads, parse_zero_line, Decimal, LoadRecord, ParseError,
};

fn num(d: &Decimal) -> f64 {
    d.as_str().parse::<f64>().unwrap()
}

fn check_load(
    l: &LoadRecord,
    i: i32,
    id: &str,
    status: bool,
    area: i16,
    zone: i16,
    powers: [f64; 6],
    owner: i16,
) {
    assert_eq!(l.i, i);
    assert_eq!(l.id, id);
    assert_eq!(l.status, status);
    assert_eq!(l.area, area);
    assert_eq!(l.zone, zone);
    assert_eq!(num(&l.pl), powers[0]);
    assert_eq!(num(&l.ql), powers[1]);
    assert_eq!(num(&l.ip), powers[2]);
    assert_eq!(num(&l.iq), powers[3]);
    assert_eq!(num(&l.yp), powers[4]);
    assert_eq!(num(&l.yq), powers[5]);
    assert_eq!(l.owner, owner);
    assert_eq!(l.scale, None);
    assert_eq!(l.intrpt, None);
}

#[test]
fn test_parse_raw_case_id() {
    let input = " 0,    100.00, 33, 0, 0, 60.00";
    let c = parse_raw_case_id(input).unwrap().1;
    assert_eq!(c.ic, 0);
    assert_eq!(num(&c.sbase), 100.0);
    assert_eq!(c.rev, Some(33));
    assert_eq!(c.xfrrat, Some(0));
    assert_eq!(c.nxfrat, Some(0));
    assert_eq!(c.basfrq.as_ref().map(num), Some(60.0));
}

#[test]
fn parsing_tests_test_parse_raw_load() {
    let input = "111,'G1',1,227,1,-0.004,-0.000,-0.003,-0.000,0.000,-0.000,1";
    let l = parse_raw_load(input).unwrap().1;
    check_load(&l, 111, "G1", true, 227, 1, [-0.004, -0.0, -0.003, -0.0, 0.0, -0.0], 1);
}

#[test]
fn parsing_test_parse_raw_load() {
    let input = "111,'G1',1,227,1,-0.004,-0.000,-0.003,-0.000,0.000,-0.000,1";
    let l = parse_raw_load(input).unwrap().1;
    check_load(&l, 111, "G1", true, 227, 1, [-0.004, -0.0, -0.003, -0.0, 0.0, -0.0], 1);
}

#[test]
fn test_parse_raw_loads() {
    let input = "111,'G1',1,227,1,-0.004,-0.000,-0.003,-0.000,0.000,-0.000,1
113,' G2',1,227,   1,    0.345,    0.024,    0.711,    0.076,   -0.028,    0.003,  2";
    let ls = parse_raw_loads(input).unwrap().1;
    assert_eq!(ls.len(), 2);
    check_load(&ls[0], 111, "G1", true, 227, 1, [-0.004, -0.0, -0.003, -0.0, 0.0, -0.0], 1);
    check_load(&ls[1], 113, " G2", true, 227, 1, [0.345, 0.024, 0.711, 0.076, -0.028, 0.003], 2);
}

#[test]
fn test_parse_raw_bus() {
    let input = "    1,'WINNSBORO 0 ', 138.0000,1,   1,   2,   1,1.01215947, -10.768348, 1.10000, 0.90000, 1.10000, 0.90000";
    let b = parse_raw_bus(input).unwrap().1;
    assert_eq!(b.i, 1);
    assert_eq!(b.name, "WINNSBORO 0 ");
    assert_eq!(num(&b.basekv), 138.0);
    assert_eq!(b.ide, 1);
    assert_eq!(b.area, 1);
    assert_eq!(b.zone, 2);
    assert_eq!(b.owner, 1);
    assert_eq!(num(&b.vm), 1.01215947);
    assert_eq!(num(&b.va), -10.768348);
    assert_eq!(num(&b.nvhi), 1.1);
    assert_eq!(num(&b.nvlo), 0.9);
    assert_eq!(num(&b.evhi), 1.1);
    assert_eq!(num(&b.evlo), 0.9);
}

#[test]
fn decimal_keeps_its_text() {
    let l = parse_raw_load("1,'1',0,1,1,-0.000,12,3.50,0,0,0,1").unwrap().1;
    assert_eq!(l.pl.as_str(), "-0.000");
    assert_eq!(l.ql.as_str(), "12");
    assert_eq!(l.ip.as_str(), "3.50");
    assert!(!l.status);
}

#[test]
fn load_optional_flags_and_rest() {
    let (rest, l) = parse_raw_load("5,'L',1,1,1,1.0,2.0,0,0,0,0,7, 0, 1, /* tail */").unwrap();
    assert_eq!(l.owner, 7);
    assert_eq!(l.scale, Some(false));
    assert_eq!(l.intrpt, Some(true));
    assert_eq!(rest, "/* tail */");
}

#[test]
fn load_id_longer_than_three_bytes_is_refused() {
    assert_eq!(parse_raw_load("5,'ABCD',1,1,1,1.0,2.0,0,0,0,0,7").err(), Some(ParseError));
    // a two-byte character counts twice
    assert_eq!(parse_raw_load("5,'Aé1',1,1,1,1.0,2.0,0,0,0,0,7").err(), Some(ParseError));
    assert!(parse_raw_load("5,'Aé',1,1,1,1.0,2.0,0,0,0,0,7").is_ok());
}

#[test]
fn bus_name_of_fifteen_bytes_fits() {
    let line = "1,'ABCDEFGHIJKLMNO',1.0,3,1,1,1,1.0,0.0,1.1,0.9,1.1,0.9";
    assert_eq!(parse_raw_bus(line).unwrap().1.name, "ABCDEFGHIJKLMNO");
    let long = "1,'ABCDEFGHIJKLMNOP',1.0,3,1,1,1,1.0,0.0,1.1,0.9,1.1,0.9";
    assert!(parse_raw_bus(long).is_err());
}

#[test]
fn integer_out_of_range_is_refused() {
    // area is an i16
    assert!(parse_raw_load("5,'L',1,32768,1,1.0,2.0,0,0,0,0,7").is_err());
    assert!(parse_raw_load("5,'L',1,32767,1,1.0,2.0,0,0,0,0,7").is_ok());
    // bus numbers are i32
    assert!(parse_raw_load("2147483648,'L',1,1,1,1.0,2.0,0,0,0,0,7").is_err());
    assert_eq!(parse_raw_load("2147483647,'L',1,1,1,1.0,2.0,0,0,0,0,7").unwrap().1.i, 2147483647);
}

#[test]
fn negative_status_is_a_set_flag() {
    assert!(parse_raw_load("5,'L',-1,1,1,1.0,2.0,0,0,0,0,7").unwrap().1.status);
}

#[test]
fn case_id_with_comment() {
    let (rest, c) = parse_raw_case_id("0, 100.0, 33, 0, 1, 50.0/ PSS/E-33 case\nnext").unwrap();
    assert_eq!(c.nxfrat, Some(1));
    assert_eq!(c.basfrq.unwrap().as_str(), "50.0");
    assert_eq!(rest, "\nnext");
    // the comment must follow the last field directly
    let (rest, _) = parse_raw_case_id("0, 100.0, 33, 0, 1, 50.0 / case\nnext").unwrap();
    assert_eq!(rest, " / case\nnext");
}

#[test]
fn case_id_comment_without_line_feed_is_left() {
    let (rest, _) = parse_raw_case_id("0, 100.0, 33, 0, 1, 50.0/ trailing").unwrap();
    assert_eq!(rest, "/ trailing");
}

#[test]
fn case_id_optional_fields_absent() {
    let (rest, c) = parse_raw_case_id("1, 100,,").unwrap();
    assert_eq!(c.ic, 1);
    assert_eq!(c.sbase.as_str(), "100");
    assert_eq!(c.rev, None);
    assert_eq!(c.xfrrat, None);
    assert_eq!(c.nxfrat, None);
    assert!(c.basfrq.is_none());
    assert_eq!(rest, "");
}

#[test]
fn case_id_needs_sbase() {
    assert_eq!(parse_raw_case_id("0,,33").err(), Some(ParseError));
}

#[test]
fn bus_list_stops_before_a_line_that_is_no_bus() {
    let input = "1,'A',1.0,3,1,1,1,1.0,0.0,1.1,0.9,1.1,0.9\n2,'B',1.0,1,1,1,1,1.0,0.0,1.1,0.9,1.1,0.9\n0\n";
    let (rest, bs) = parse_raw_buses(input).unwrap();
    assert_eq!(bs.len(), 2);
    assert_eq!(bs[1].name, "B");
    assert_eq!(rest, "\n0\n");
    assert!(parse_raw_buses("0\n").is_err());
}

#[test]
fn zero_line() {
    assert_eq!(parse_zero_line("0  \nx").unwrap().0, "x");
    assert!(parse_zero_line("0 x\n").is_err());
    assert!(parse_zero_line("0").is_err());
}

#[test]
fn whole_case() {
    let input = "0, 100.0, 33, 0, 0, 60.0/ two-bus case\n1,'A',1.0,3,1,1,1,1.05,0.0,1.1,0.9,1.1,0.9\n2,'B',21.0,1,1,1,1,0.99,9.2,1.1,0.9,1.1,0.9\n0\n1,'1',1,1,1,475.0,76.0,0,0,0,0,1";
    let (rest, c) = parse_raw_case(input).unwrap();
    assert_eq!(rest, "");
    assert_eq!(c.buses.len(), 2);
    assert_eq!(c.buses[0].ide, 3);
    assert_eq!(c.loads.len(), 1);
    assert_eq!(num(&c.loads[0].pl), 475.0);
    // the zero line that ends the buses is missing
    assert!(parse_raw_case("0, 100.0, 33, 0, 0, 60.0\n1,'A',1.0,3,1,1,1,1.05,0.0,1.1,0.9,1.1,0.9\n1,'1',1,1,1,4,7,0,0,0,0,1").is_err());
}
