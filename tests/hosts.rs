use flota::hosts::update_etc_hosts;
use flota::ipv4::IPv4;

fn lines(text: &str) -> Vec<String> {
    text.split('\n').map(|l| l.to_string()).collect()
}

const ORIG: &str = "# The following lines are desirable for IPv4 capable hosts\n\
127.0.0.1 localhost.localdomain localhost\n\
::1 localhost6.localdomain6 localhost6\n\
\n\
10.10.10.10 test1\n\
20.20.20.20 test2";

#[test]
fn hosts_block_appended_once() {
    let ip = IPv4::from_cidr_notation("11.11.11.11/24").unwrap();
    let mut current = lines(ORIG);
    for _ in 0..3 {
        current = update_etc_hosts(&current, &ip, "test11");
        assert_eq!(
            current.join("\n"),
            format!(
                "{}\n\n# autogenerated by flota\n# >>>>\n11.11.11.11 test11\n# <<<<",
                ORIG
            )
        );
    }
}

#[test]
fn hosts_entry_replaced_in_block() {
    let text = "127.0.0.1 localhost\n# autogenerated by flota\n# >>>>\n11.11.11.11 old\n11.11.11.111 other\n# <<<<\n";
    let ip = IPv4::from_cidr_notation("11.11.11.11/24").unwrap();
    let out = update_etc_hosts(&lines(text), &ip, "new").join("\n");
    assert_eq!(
        out,
        "127.0.0.1 localhost\n# autogenerated by flota\n# >>>>\n11.11.11.111 other\n11.11.11.11 new\n# <<<<\n"
    );
    let ip2 = IPv4::from_cidr_notation("12.0.0.1/8").unwrap();
    let out2 = update_etc_hosts(&lines(&out), &ip2, "h2").join("\n");
    assert_eq!(
        out2,
        "127.0.0.1 localhost\n# autogenerated by flota\n# >>>>\n11.11.11.111 other\n11.11.11.11 new\n12.0.0.1 h2\n# <<<<\n"
    );
}

#[test]
fn hosts_broken_block_gets_a_new_one() {
    let text = "# autogenerated by flota\nnot an opening line";
    let ip = IPv4::from_cidr_notation("10.0.0.9/24").unwrap();
    let out = update_etc_hosts(&lines(text), &ip, "g").join("\n");
    assert_eq!(
        out,
        "# autogenerated by flota\nnot an opening line\n\n# autogenerated by flota\n# >>>>\n10.0.0.9 g\n# <<<<"
    );
}
