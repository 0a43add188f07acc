use vstd::prelude::*;

use crate::ids::{ModuleID, ModuleInstanceID};

verus! {

/// The name under which the glue module is imported by decomposed modules.
pub const GLUE_MODULE_NAME: &'static str = "crimp_glue";

/// The name under which the replay driver is imported by the glue module.
pub const DRIVER_MODULE_NAME: &'static str = "crimp_driver_mono";

/// The name of the merged output of all decomposed modules.
pub const DECOMPOSED_COMPONENT_NAME: &'static str = "decomposed_component";

/// The import module name given to imports that the engine replays.
pub const REPLAY_IMPORT_MODULE: &'static str = "crimp_replay";

/// The character for a decimal digit.
pub open spec fn digit_char(d: nat) -> char {
    if d == 0 { '0' }
    else if d == 1 { '1' }
    else if d == 2 { '2' }
    else if d == 3 { '3' }
    else if d == 4 { '4' }
    else if d == 5 { '5' }
    else if d == 6 { '6' }
    else if d == 7 { '7' }
    else if d == 8 { '8' }
    else { '9' }
}

/// The decimal representation of a natural number, without leading zeros.
pub open spec fn decimal_spec(n: nat) -> Seq<char>
    decreases n,
{
    if n < 10 {
        seq![digit_char(n)]
    } else {
        decimal_spec(n / 10).push(digit_char(n % 10))
    }
}

/// The name given to the module of an instance: `module{m}_instance{i}`.
pub open spec fn module_name_spec(module_id: nat, instance_id: nat) -> Seq<char> {
    "module"@ + decimal_spec(module_id) + "_instance"@ + decimal_spec(instance_id)
}

/// A decimal digit character.
pub open spec fn is_digit(c: char) -> bool {
    c == '0' || c == '1' || c == '2' || c == '3' || c == '4' || c == '5' || c == '6' || c == '7' || c == '8' || c == '9'
}

/// A decimal representation is made of digits, one for a number below ten
/// and at least two otherwise.
proof fn lemma_decimal_digits(n: nat)
    ensures
        decimal_spec(n).len() >= 1,
        n >= 10 ==> decimal_spec(n).len() >= 2,
        forall|k: int| 0 <= k < decimal_spec(n).len() ==> is_digit(#[trigger] decimal_spec(n)[k]),
    decreases n,
{
    if n >= 10 {
        lemma_decimal_digits(n / 10);
        let d = decimal_spec(n / 10);
        assert forall|k: int| 0 <= k < decimal_spec(n).len() implies is_digit(#[trigger] decimal_spec(n)[k]) by {
            if k < d.len() {
                assert(decimal_spec(n)[k] == d[k]);
            }
        }
    }
}

/// Different numbers have different decimal representations.
proof fn lemma_decimal_injective(a: nat, b: nat)
    requires
        decimal_spec(a) == decimal_spec(b),
    ensures
        a == b,
    decreases a,
{
    lemma_decimal_digits(a);
    lemma_decimal_digits(b);
    if a < 10 && b < 10 {
        assert(decimal_spec(a)[0] == digit_char(a));
        assert(decimal_spec(b)[0] == digit_char(b));
    } else if a >= 10 && b >= 10 {
        let (da, db) = (decimal_spec(a), decimal_spec(b));
        assert(da.last() == digit_char(a % 10));
        assert(db.last() == digit_char(b % 10));
        assert(da.drop_last() == decimal_spec(a / 10));
        assert(db.drop_last() == decimal_spec(b / 10));
        lemma_decimal_injective(a / 10, b / 10);
    }
}

/// Distinct instances get distinct module names: the name of an instance's
/// module gives back its module and instance IDs.
pub proof fn lemma_module_names_distinct(m1: nat, i1: nat, m2: nat, i2: nat)
    requires
        module_name_spec(m1, i1) == module_name_spec(m2, i2),
    ensures
        m1 == m2,
        i1 == i2,
{
    reveal_strlit("module");
    reveal_strlit("_instance");
    let (d1, e1, d2, e2) = (decimal_spec(m1), decimal_spec(i1), decimal_spec(m2), decimal_spec(i2));
    let (l1, l2) = (d1.len() as int, d2.len() as int);
    let s = module_name_spec(m1, i1);
    let t = module_name_spec(m2, i2);
    lemma_decimal_digits(m1);
    lemma_decimal_digits(m2);
    assert(s == "module"@ + d1 + "_instance"@ + e1);
    assert(t == "module"@ + d2 + "_instance"@ + e2);
    assert forall|k: int| 0 <= k < d1.len() implies s[6 + k] == d1[k] by {}
    assert forall|k: int| 0 <= k < d2.len() implies t[6 + k] == d2[k] by {}
    assert(s[6 + l1] == '_');
    assert(t[6 + l2] == '_');
    if l1 < l2 {
        assert(is_digit(d2[l1]));
        assert(false);
    } else if l2 < l1 {
        assert(is_digit(d1[l2]));
        assert(false);
    }
    assert(d1 == s.subrange(6, 6 + l1));
    assert(d2 == t.subrange(6, 6 + l2));
    assert(e1 == s.subrange(15 + l1, s.len() as int));
    assert(e2 == t.subrange(15 + l2, t.len() as int));
    lemma_decimal_injective(m1, m2);
    lemma_decimal_injective(i1, i2);
}

/// The namespaced name of a member: `{prefix}:{member}`.
pub open spec fn namespaced_spec(prefix: Seq<char>, member: Seq<char>) -> Seq<char> {
    prefix + ":"@ + member
}

/// A module name has no colon.
proof fn lemma_module_name_no_colon(m: nat, i: nat)
    ensures
        forall|k: int| 0 <= k < module_name_spec(m, i).len() ==> #[trigger] module_name_spec(m, i)[k] != ':',
{
    reveal_strlit("module");
    reveal_strlit("_instance");
    lemma_decimal_digits(m);
    lemma_decimal_digits(i);
    let (d, e) = (decimal_spec(m), decimal_spec(i));
    let s = module_name_spec(m, i);
    assert forall|k: int| 0 <= k < s.len() implies #[trigger] s[k] != ':' by {
        if 6 <= k < 6 + d.len() {
            assert(s[k] == d[k - 6]);
        } else if 15 + d.len() <= k {
            assert(s[k] == e[k - 15 - d.len()]);
        }
    }
}

/// The replay stubs of the glue are named apart: the namespaced name of a
/// member of an instance's module gives back the module, the instance and
/// the member.
pub proof fn lemma_namespaced_names_distinct(m1: nat, i1: nat, x: Seq<char>, m2: nat, i2: nat, y: Seq<char>)
    requires
        namespaced_spec(module_name_spec(m1, i1), x) == namespaced_spec(module_name_spec(m2, i2), y),
    ensures
        m1 == m2,
        i1 == i2,
        x == y,
{
    reveal_strlit(":");
    let (p1, p2) = (module_name_spec(m1, i1), module_name_spec(m2, i2));
    let s = namespaced_spec(p1, x);
    lemma_module_name_no_colon(m1, i1);
    lemma_module_name_no_colon(m2, i2);
    assert(s == p1 + ":"@ + x);
    assert(s == p2 + ":"@ + y);
    let (l1, l2) = (p1.len() as int, p2.len() as int);
    assert(s[l1] == ':');
    assert(s[l2] == ':');
    if l1 < l2 {
        assert(s[l1] == p2[l1]);
        assert(false);
    } else if l2 < l1 {
        assert(s[l2] == p1[l2]);
        assert(false);
    }
    assert(p1 == s.subrange(0, l1));
    assert(p2 == s.subrange(0, l2));
    assert(x == s.subrange(l1 + 1, s.len() as int));
    assert(y == s.subrange(l2 + 1, s.len() as int));
    lemma_module_names_distinct(m1, i1, m2, i2);
}

fn digit_str(d: u32) -> (r: &'static str)
    requires
        d < 10,
    ensures
        r@ == seq![digit_char(d as nat)],
{
    proof {
        reveal_strlit("0");
        reveal_strlit("1");
        reveal_strlit("2");
        reveal_strlit("3");
        reveal_strlit("4");
        reveal_strlit("5");
        reveal_strlit("6");
        reveal_strlit("7");
        reveal_strlit("8");
        reveal_strlit("9");
    }
    if d == 0 { "0" }
    else if d == 1 { "1" }
    else if d == 2 { "2" }
    else if d == 3 { "3" }
    else if d == 4 { "4" }
    else if d == 5 { "5" }
    else if d == 6 { "6" }
    else if d == 7 { "7" }
    else if d == 8 { "8" }
    else { "9" }
}

/// Formats an unsigned integer in decimal.
pub fn decimal(n: u32) -> (r: String)
    ensures
        r@ == decimal_spec(n as nat),
    decreases n,
{
    if n < 10 {
        String::from_str(digit_str(n))
    } else {
        let mut s = decimal(n / 10);
        s.append(digit_str(n % 10));
        s
    }
}

/// Unified naming of module instances from their IDs.
pub fn module_name_from_ids(module_id: ModuleID, instance_id: ModuleInstanceID) -> (r: String)
    ensures
        r@ == module_name_spec(module_id.0 as nat, instance_id.0 as nat),
{
    let mut s = String::from_str("module");
    let m = decimal(module_id.0);
    s.append(m.as_str());
    s.append("_instance");
    let i = decimal(instance_id.0);
    s.append(i.as_str());
    s
}

/// Joins a prefix and a member name as `{prefix}:{member}`.
pub fn namespaced(prefix: &str, member: &str) -> (r: String)
    ensures
        r@ == namespaced_spec(prefix@, member@),
{
    let mut s = String::from_str(prefix);
    s.append(":");
    s.append(member);
    s
}

} // verus!
