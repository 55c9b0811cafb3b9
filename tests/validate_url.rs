use media_guard::validate_url;

#[test]
fn valid_basic_url() {
    assert!(validate_url("http://axel.ch", None), "Basic url schould pass");
    assert!(validate_url("axel.ch", None), "Basic url without protocol schould pass");
}

#[test]
fn valid_protocol_part() {
    assert!(validate_url("http2://test.ch", None), "Protocol part of URL schould accept numbers");
    assert!(
        validate_url("HTTP://test.ch", None),
        "Protocol part of URL schould accept upper case letters"
    );
    assert!(
        validate_url("hTTP2://test.ch", None),
        "Protocol part of URL schould accept number with upper and lower case letters"
    );
}

#[test]
fn invalid_protocol_part() {
    assert!(
        !validate_url("-http://test.ch", None),
        "Protocol part of URL contains only number and letters, no other special char"
    );
    assert!(
        !validate_url("ht-tp://test.ch", None),
        "Protocol part of URL contains only number and letters, no other special char"
    );
    assert!(!validate_url("http:/1/test.ch", None), "Protocol part of URL schould look like PROTOCOL://");
    assert!(!validate_url("http:/test.ch", None), "Protocol part of URL schould look like PROTOCOL://");
    assert!(!validate_url("http//test.ch", None), "Protocol part of URL schould look like PROTOCOL://");
}

#[test]
fn valid_subdomain_part() {
    assert!(validate_url("http://TEST.ch", None), "Subdomain part of URL schould accept upper case letters");
    assert!(validate_url("http://test-test.ch", None), "Subdomain part of URL schould accept hyphens characters");
    assert!(validate_url("http://www.test.ch", None), "Subdomain part of URL schould accept full stops characters");
    assert!(validate_url("http://000.ch", None), "Subdomain part of URL schould accept numbers characters");
    assert!(
        validate_url("http://2tes-t.test2-test.ch", None),
        "Subdomain part of URL schould accept the combinaison of accepted character"
    );
}

#[test]
fn invalid_subdomain_part() {
    assert!(!validate_url("http://te.ch", None), "Subdomain part schould be at least 3 characters long");
    assert!(!validate_url("http://t/s.ch", None), "Subdomain part accept only hyphens, number and letters");
}

#[test]
fn valid_top_domain_part() {
    assert!(validate_url("http://test.CH", None), "Top domain part of URI schould accept upper case letters");
}

#[test]
fn invalid_top_domain_part() {
    assert!(!validate_url("http://test.ch2", None), "Top domain schould finish with a letter");
    assert!(!validate_url("http://text.c-h", None), "Top domain part of URI schould accept special characters");
    assert!(!validate_url("http://text.c", None), "Top domain part of URI schould be 3 characters long");
}

#[test]
fn valid_whitelist() {
    assert!(validate_url("http://test.ch", Some(&[".ch", ".ww", ".org"])), "Basic valid whitelist");
}

#[test]
fn invalid_whitelist() {
    assert!(!validate_url("http://test.fr", Some(&[".ch", ".www", ".org"])), "URL topdomain not whitelisted");
    assert!(!validate_url("http://test.fr", Some(&[".c"])), "Invalid topdomain schould not pass");
    assert!(
        !validate_url("http://test.fr", Some(&[".c", ".ch", ".com"])),
        "One invalid topdomain in whitelist schould no pass"
    );
}

#[test]
fn url_examples_of_the_description() {
    assert!(validate_url("http://test.ch", None));
    assert!(!validate_url("http://te.ch", None));
    assert!(!validate_url("http://test.fr", Some(&[".ch"])));
    assert!(!validate_url("http://test.fr", Some(&[".c"])));
}

#[test]
fn url_edge_cases() {
    assert!(!validate_url("", None));
    assert!(!validate_url("://test.ch", None));
    assert!(!validate_url("http://test.ch", Some(&[])));
    assert!(validate_url("http://a.b.c.test.co.uk", None));
    assert!(validate_url("ftp://abc.d.e", None));
    assert!(!validate_url("http://test.ch.", None));
    assert!(!validate_url("http://tést.ch", None));
    assert!(!validate_url("http://test.ch", Some(&["ch"])));
}

#[test]
fn whitelist_suffix_ignores_case() {
    assert!(validate_url("http://test.CH", Some(&[".ch"])));
    assert!(validate_url("http://test.ch", Some(&[".CH"])));
    assert!(!validate_url("http://test.cx", Some(&[".ch"])));
}

#[test]
fn url_agrees_with_the_pattern_on_many_inputs() {
    let pattern =
        regex::Regex::new(r"^([a-z0-9A-Z]+://)?[-.a-z0-9A-Z]{3,}\.[a-zA-Z.]{1,}[a-zA-Z]$").unwrap();
    let alphabet = ['a', 'Z', '0', '.', '-', ':', '/'];
    let mut count: u64 = 0;
    for len in 0..7usize {
        let total = alphabet.len().pow(len as u32);
        for mut n in 0..total {
            let mut s = String::new();
            for _ in 0..len {
                s.push(alphabet[n % alphabet.len()]);
                n /= alphabet.len();
            }
            assert_eq!(validate_url(&s, None), pattern.is_match(&s), "input {:?}", s);
            count += 1;
        }
    }
    assert!(count > 100_000);
    for s in ["http://test.ch", "abc.de", "ab://abc.de.f", "x://xyz.a.b", "h1://-.-.Ab"] {
        assert_eq!(validate_url(s, None), pattern.is_match(s), "input {:?}", s);
    }
}
