//! Identifiers that a node hands out: its own name, a dash, and a counter in
//! decimal.

use vstd::prelude::*;
use vstd::string::*;

verus! {

/// The character that writes the digit `d`.
pub open spec fn digit(d: nat) -> char {
    if d == 0 {
        '0'
    } else if d == 1 {
        '1'
    } else if d == 2 {
        '2'
    } else if d == 3 {
        '3'
    } else if d == 4 {
        '4'
    } else if d == 5 {
        '5'
    } else if d == 6 {
        '6'
    } else if d == 7 {
        '7'
    } else if d == 8 {
        '8'
    } else {
        '9'
    }
}

/// The digit that `c` writes; ten for a character that is no digit.
pub open spec fn digit_value(c: char) -> nat {
    if c == '0' {
        0
    } else if c == '1' {
        1
    } else if c == '2' {
        2
    } else if c == '3' {
        3
    } else if c == '4' {
        4
    } else if c == '5' {
        5
    } else if c == '6' {
        6
    } else if c == '7' {
        7
    } else if c == '8' {
        8
    } else if c == '9' {
        9
    } else {
        10
    }
}

/// `n` in decimal: most significant digit first, no leading zero, `"0"` for zero.
pub open spec fn decimal(n: nat) -> Seq<char>
    decreases n,
{
    if n < 10 {
        seq![digit(n)]
    } else {
        decimal(n / 10).push(digit(n % 10))
    }
}

/// The number that a sequence of digits writes.
pub open spec fn decimal_value(s: Seq<char>) -> nat
    decreases s.len(),
{
    if s.len() == 0 {
        0
    } else {
        decimal_value(s.drop_last()) * 10 + digit_value(s.last())
    }
}

/// The identifier that the node `node` hands out at counter value `counter`.
pub open spec fn unique_id(node: Seq<char>, counter: nat) -> Seq<char> {
    node + seq!['-'] + decimal(counter)
}

/// Reading a decimal back gives the number it was written from.
pub proof fn lemma_decimal_value(n: nat)
    ensures
        decimal_value(decimal(n)) == n,
    decreases n,
{
    if n < 10 {
        assert(decimal(n).drop_last() =~= Seq::<char>::empty());
        assert(decimal_value(decimal(n).drop_last()) == 0);
    } else {
        lemma_decimal_value(n / 10);
        assert(decimal(n).drop_last() =~= decimal(n / 10));
    }
}

/// Every character of a decimal is a digit, so none is a dash.
pub proof fn lemma_decimal_digits(n: nat)
    ensures
        decimal(n).len() >= 1,
        forall|i: int| 0 <= i < decimal(n).len() ==> digit_value(#[trigger] decimal(n)[i]) < 10,
        forall|i: int| 0 <= i < decimal(n).len() ==> #[trigger] decimal(n)[i] != '-',
    decreases n,
{
    if n >= 10 {
        lemma_decimal_digits(n / 10);
    }
}

/// Two numbers with the same decimal are the same number.
pub proof fn lemma_decimal_injective(a: nat, b: nat)
    requires
        decimal(a) == decimal(b),
    ensures
        a == b,
{
    lemma_decimal_value(a);
    lemma_decimal_value(b);
}

/// An identifier names one node and one counter value: two identifiers are
/// equal only if they come from the same node name at the same counter value.
/// A node whose counter never repeats therefore never repeats an identifier,
/// and two nodes with different names never share one, whatever their
/// counters.
pub proof fn lemma_unique_id_injective(node_a: Seq<char>, a: nat, node_b: Seq<char>, b: nat)
    requires
        unique_id(node_a, a) == unique_id(node_b, b),
    ensures
        node_a == node_b,
        a == b,
{
    let ia = unique_id(node_a, a);
    let ib = unique_id(node_b, b);
    let da = decimal(a);
    let db = decimal(b);
    lemma_decimal_digits(a);
    lemma_decimal_digits(b);
    assert(ia.len() == node_a.len() + 1 + da.len());
    assert(ib.len() == node_b.len() + 1 + db.len());
    assert(ia[node_a.len() as int] == '-');
    assert(ib[node_b.len() as int] == '-');
    if node_a.len() < node_b.len() {
        let k = node_b.len() as int;
        assert(ia[k] == da[k - node_a.len() - 1]);
        assert(false);
    }
    if node_b.len() < node_a.len() {
        let k = node_a.len() as int;
        assert(ib[k] == db[k - node_b.len() - 1]);
        assert(false);
    }
    assert(node_a =~= ia.subrange(0, node_a.len() as int));
    assert(node_b =~= ib.subrange(0, node_b.len() as int));
    assert(da =~= ia.subrange((node_a.len() + 1) as int, ia.len() as int));
    assert(db =~= ib.subrange((node_b.len() + 1) as int, ib.len() as int));
    lemma_decimal_injective(a, b);
}

/// The one-character string that writes the digit `d`.
fn digit_str(d: usize) -> (s: &'static str)
    requires
        d < 10,
    ensures
        s@ == seq![digit(d as nat)],
{
    proof {
        reveal_strlit("0");
        reveal_strlit("1");
        reveal_strlit("2");
        reveal_strlit("3");
        reveal_strlit("4");
        reveal_strlit("5");
        reveal_strlit("6");
        reveal_strlit("7");
        reveal_strlit("8");
        reveal_strlit("9");
    }
    let s: &'static str = if d == 0 {
        "0"
    } else if d == 1 {
        "1"
    } else if d == 2 {
        "2"
    } else if d == 3 {
        "3"
    } else if d == 4 {
        "4"
    } else if d == 5 {
        "5"
    } else if d == 6 {
        "6"
    } else if d == 7 {
        "7"
    } else if d == 8 {
        "8"
    } else {
        "9"
    };
    assert(s@ =~= seq![digit(d as nat)]);
    s
}

/// Writes `n` in decimal.
pub fn decimal_string(n: usize) -> (s: String)
    ensures
        s@ == decimal(n as nat),
    decreases n,
{
    if n < 10 {
        String::from_str(digit_str(n))
    } else {
        let mut s = decimal_string(n / 10);
        s.append(digit_str(n % 10));
        assert(s@ =~= decimal(n as nat));
        s
    }
}

/// Builds the identifier that the node `node_id` hands out at counter value
/// `counter`: the node's name, a dash, the counter in decimal.
pub fn generate_id(node_id: &str, counter: usize) -> (id: String)
    ensures
        id@ == unique_id(node_id@, counter as nat),
{
    let mut id = String::from_str(node_id);
    id.append("-");
    let digits = decimal_string(counter);
    id.append(digits.as_str());
    proof {
        reveal_strlit("-");
        assert("-"@ =~= seq!['-']);
    }
    id
}

} // verus!
