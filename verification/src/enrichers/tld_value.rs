//! Static TLD value table, biased towards the Polish market: how desirable a TLD is
//! for an SEO or brand purchase in Poland, from 0 to 100.
use vstd::prelude::*;

use crate::ext::{lowercase, to_lowercase};
use crate::text::{chars_eq_str, chars_of};

verus! {

/// The points of a lower-cased TLD.
pub open spec fn tld_points(t: Seq<char>) -> u32 {
    if t == "pl"@ { 100 }
    else if t == "com"@ { 95 }
    else if t == "com.pl"@ { 80 }
    else if t == "io"@ { 75 }
    else if t == "net"@ { 65 }
    else if t == "net.pl"@ { 55 }
    else if t == "org"@ { 60 }
    else if t == "org.pl"@ { 50 }
    else if t == "info"@ { 35 }
    else if t == "info.pl"@ { 30 }
    else if t == "biz"@ { 30 }
    else if t == "eu"@ { 55 }
    else if t == "shop"@ { 50 }
    else { 25 }
}

/// The value of a TLD, looked up in lower case; 25 for any TLD not in the table.
pub fn score(tld: &str) -> (r: u32)
    ensures
        r == tld_points(lowercase(tld@)),
        r <= 100,
{
    let l = to_lowercase(tld);
    let t = chars_of(l.as_str());
    if chars_eq_str(&t, "pl") { 100 }
    else if chars_eq_str(&t, "com") { 95 }
    else if chars_eq_str(&t, "com.pl") { 80 }
    else if chars_eq_str(&t, "io") { 75 }
    else if chars_eq_str(&t, "net") { 65 }
    else if chars_eq_str(&t, "net.pl") { 55 }
    else if chars_eq_str(&t, "org") { 60 }
    else if chars_eq_str(&t, "org.pl") { 50 }
    else if chars_eq_str(&t, "info") { 35 }
    else if chars_eq_str(&t, "info.pl") { 30 }
    else if chars_eq_str(&t, "biz") { 30 }
    else if chars_eq_str(&t, "eu") { 55 }
    else if chars_eq_str(&t, "shop") { 50 }
    else { 25 }
}

/// Law: the table values of the known TLDs: pl 100, com 95, com.pl 80, io 75, net 65,
/// net.pl 55, org 60, org.pl 50, info 35, info.pl 30, biz 30, eu 55, shop 50; every
/// other TLD is worth 25; no TLD is worth more than 100.
pub proof fn lemma_tld_table(t: Seq<char>)
    ensures
        t == "pl"@ ==> tld_points(t) == 100,
        t == "com"@ ==> tld_points(t) == 95,
        t == "com.pl"@ ==> tld_points(t) == 80,
        t == "io"@ ==> tld_points(t) == 75,
        t == "net"@ ==> tld_points(t) == 65,
        t == "net.pl"@ ==> tld_points(t) == 55,
        t == "org"@ ==> tld_points(t) == 60,
        t == "org.pl"@ ==> tld_points(t) == 50,
        t == "info"@ ==> tld_points(t) == 35,
        t == "info.pl"@ ==> tld_points(t) == 30,
        t == "biz"@ ==> tld_points(t) == 30,
        t == "eu"@ ==> tld_points(t) == 55,
        t == "shop"@ ==> tld_points(t) == 50,
        !(t == "pl"@ || t == "com"@ || t == "com.pl"@ || t == "io"@ || t == "net"@
            || t == "net.pl"@ || t == "org"@ || t == "org.pl"@ || t == "info"@
            || t == "info.pl"@ || t == "biz"@ || t == "eu"@ || t == "shop"@)
            ==> tld_points(t) == 25,
        tld_points(t) <= 100,
{
    reveal_strlit("pl");
    reveal_strlit("com");
    reveal_strlit("com.pl");
    reveal_strlit("io");
    reveal_strlit("net");
    reveal_strlit("net.pl");
    reveal_strlit("org");
    reveal_strlit("org.pl");
    reveal_strlit("info");
    reveal_strlit("info.pl");
    reveal_strlit("biz");
    reveal_strlit("eu");
    reveal_strlit("shop");
    assert("pl"@.len() == 2);
    assert("com"@.len() == 3);
    assert("com.pl"@.len() == 6);
    assert("io"@.len() == 2);
    assert("net"@.len() == 3);
    assert("net.pl"@.len() == 6);
    assert("org"@.len() == 3);
    assert("org.pl"@.len() == 6);
    assert("info"@.len() == 4);
    assert("info.pl"@.len() == 7);
    assert("biz"@.len() == 3);
    assert("eu"@.len() == 2);
    assert("shop"@.len() == 4);
    assert("io"@[0] != "pl"@[0]);
    assert("net"@[0] != "com"@[0]);
    assert("net.pl"@[0] != "com.pl"@[0]);
    assert("org"@[0] != "com"@[0]);
    assert("org"@[0] != "net"@[0]);
    assert("org.pl"@[0] != "com.pl"@[0]);
    assert("org.pl"@[0] != "net.pl"@[0]);
    assert("biz"@[0] != "com"@[0]);
    assert("biz"@[0] != "net"@[0]);
    assert("biz"@[0] != "org"@[0]);
    assert("eu"@[0] != "pl"@[0]);
    assert("eu"@[0] != "io"@[0]);
    assert("shop"@[0] != "info"@[0]);
}

} // verus!
