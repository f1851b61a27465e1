use fanotify_perm_fix::utils::parse_octal;

#[test]
fn test_parse_octal() {
    assert_eq!(parse_octal("0664"), Some(0o664));
    assert_eq!(parse_octal("2775"), Some(0o2775));
}

#[test]
fn parse_octal_gives_decimal_values() {
    assert_eq!(parse_octal("0664"), Some(436));
    assert_eq!(parse_octal("2775"), Some(1533));
    assert_eq!(parse_octal("0"), Some(0));
    assert_eq!(parse_octal("7"), Some(7));
    assert_eq!(parse_octal("10"), Some(8));
    assert_eq!(parse_octal("7777"), Some(4095));
}

#[test]
fn parse_octal_ignores_leading_zeros() {
    assert_eq!(parse_octal("000000000000000000000000000000000001"), Some(1));
    assert_eq!(parse_octal("00"), Some(0));
}

#[test]
fn parse_octal_takes_one_leading_plus() {
    assert_eq!(parse_octal("+17"), Some(15));
    assert_eq!(parse_octal("+"), None);
    assert_eq!(parse_octal("++17"), None);
    assert_eq!(parse_octal("1+7"), None);
}

#[test]
fn parse_octal_rejects_what_is_no_octal_number() {
    assert_eq!(parse_octal(""), None);
    assert_eq!(parse_octal("8"), None);
    assert_eq!(parse_octal("79"), None);
    assert_eq!(parse_octal("-7"), None);
    assert_eq!(parse_octal(" 7"), None);
    assert_eq!(parse_octal("7 "), None);
    assert_eq!(parse_octal("0o7"), None);
    assert_eq!(parse_octal("7_7"), None);
    assert_eq!(parse_octal("rwx"), None);
    assert_eq!(parse_octal("/"), None);
    assert_eq!(parse_octal("\u{0667}"), None);
    assert_eq!(parse_octal("7\u{ff17}"), None);
    assert_eq!(parse_octal("+\u{e9}"), None);
}

#[test]
fn parse_octal_stops_at_32_bits() {
    assert_eq!(parse_octal("37777777777"), Some(u32::MAX));
    assert_eq!(parse_octal("037777777777"), Some(u32::MAX));
    assert_eq!(parse_octal("40000000000"), None);
    assert_eq!(parse_octal("777777777777"), None);
    assert_eq!(parse_octal("77777777777777777777777777777777"), None);
}

#[test]
fn parse_octal_reads_back_what_octal_formatting_writes() {
    let numbers: Vec<u32> = vec![0, 1, 7, 8, 63, 64, 0o644, 0o2775, 0o7777, 0o10000, 1 << 31, u32::MAX];
    for n in numbers {
        assert_eq!(parse_octal(&format!("{:o}", n)), Some(n));
        assert_eq!(parse_octal(&format!("{:012o}", n)), Some(n));
    }
}

#[test]
fn parse_octal_agrees_with_the_standard_library() {
    let alphabet = ['0', '7', '8', '+', '-', ' ', 'a'];
    let mut inputs: Vec<String> = vec![String::new()];
    let mut from = 0;
    for _ in 0..4 {
        let upto = inputs.len();
        for i in from..upto {
            for c in alphabet {
                let mut longer = inputs[i].clone();
                longer.push(c);
                inputs.push(longer);
            }
        }
        from = upto;
    }
    assert_eq!(inputs.len(), 1 + 7 + 49 + 343 + 2401);
    for input in inputs {
        assert_eq!(parse_octal(&input), u32::from_str_radix(&input, 8).ok());
    }
}
