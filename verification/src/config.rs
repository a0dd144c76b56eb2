//! The topic configuration: `topic1:partitions,topic2:partitions`.
use vstd::prelude::*;

verus! {

/// The pieces of `s` between the occurrences of `sep`, as `str::split` yields
/// them: there is always at least one, and two separators next to each other
/// give an empty piece.
pub open spec fn split(s: Seq<char>, sep: char) -> Seq<Seq<char>>
    decreases s.len(),
{
    if s.len() == 0 {
        seq![Seq::<char>::empty()]
    } else {
        let init = split(s.drop_last(), sep);
        if s.last() == sep {
            init.push(Seq::<char>::empty())
        } else {
            init.update(init.len() - 1, init.last().push(s.last()))
        }
    }
}

/// Splitting never gives an empty list of pieces.
pub proof fn lemma_split_nonempty(s: Seq<char>, sep: char)
    ensures
        split(s, sep).len() >= 1,
    decreases s.len(),
{
    if s.len() > 0 {
        lemma_split_nonempty(s.drop_last(), sep);
    }
}

/// The views of a list of strings.
pub open spec fn views(v: Seq<String>) -> Seq<Seq<char>> {
    v.map_values(|x: String| x@)
}

/// `s.split(sep)`, each piece copied into a `String`.
pub fn split_str(s: &str, sep: char) -> (pieces: Vec<String>)
    ensures
        views(pieces@) == split(s@, sep),
{
    let n = s.unicode_len();
    let mut pieces: Vec<String> = Vec::new();
    let mut start: usize = 0;
    let mut i: usize = 0;
    proof {
        assert(s@.subrange(0, 0) =~= Seq::<char>::empty());
        assert(views(pieces@).push(s@.subrange(0, 0)) =~= seq![Seq::<char>::empty()]);
    }
    while i < n
        invariant
            n == s@.len(),
            start <= i <= n,
            views(pieces@).push(s@.subrange(start as int, i as int)) == split(
                s@.subrange(0, i as int),
                sep,
            ),
        decreases n - i,
    {
        let c = s.get_char(i);
        let ghost pre = s@.subrange(0, i as int);
        let ghost post = s@.subrange(0, i as int + 1);
        proof {
            assert(post.drop_last() =~= pre);
            assert(post.last() == c);
            lemma_split_nonempty(pre, sep);
        }
        if c == sep {
            let piece = String::from_str(s.substring_char(start, i));
            pieces.push(piece);
            start = i + 1;
            proof {
                assert(s@.subrange(start as int, i as int + 1) =~= Seq::<char>::empty());
                assert(views(pieces@) =~= split(pre, sep));
            }
        } else {
            proof {
                assert(s@.subrange(start as int, i as int + 1) =~= s@.subrange(
                    start as int,
                    i as int,
                ).push(c));
                assert(views(pieces@).push(s@.subrange(start as int, i as int + 1)) =~= split(
                    post,
                    sep,
                ));
            }
        }
        i = i + 1;
    }
    let last = String::from_str(s.substring_char(start, n));
    pieces.push(last);
    proof {
        assert(s@.subrange(0, n as int) =~= s@);
        assert(views(pieces@) =~= split(s@, sep));
    }
    pieces
}

/// Whether `c` is an ASCII decimal digit.
pub open spec fn is_digit(c: char) -> bool {
    48 <= (c as int) <= 57
}

/// The number that the digit `c` stands for.
pub open spec fn digit_value(c: char) -> int {
    (c as int) - 48
}

/// Whether every character of `d` is a decimal digit.
pub open spec fn all_digits(d: Seq<char>) -> bool {
    forall|i: int| 0 <= i < d.len() ==> is_digit(#[trigger] d[i])
}

/// The number that the digits `d` write in base ten.
pub open spec fn decimal_value(d: Seq<char>) -> int
    decreases d.len(),
{
    if d.len() == 0 {
        0
    } else {
        10 * decimal_value(d.drop_last()) + digit_value(d.last())
    }
}

/// Whether `s` starts with a sign.
pub open spec fn has_sign(s: Seq<char>) -> bool {
    s.len() > 0 && (s[0] == '-' || s[0] == '+')
}

/// The digits of `s`: what follows its sign, if it has one.
pub open spec fn unsigned_part(s: Seq<char>) -> Seq<char> {
    if has_sign(s) {
        s.drop_first()
    } else {
        s
    }
}

/// The number that `s` writes, sign included.
pub open spec fn signed_value(s: Seq<char>) -> int {
    if s.len() > 0 && s[0] == '-' {
        -decimal_value(unsigned_part(s))
    } else {
        decimal_value(unsigned_part(s))
    }
}

/// What `s.parse::<i32>()` gives: an optional sign (`+` or `-`) followed by
/// one or more decimal digits, whose value fits in an `i32`; anything else
/// (empty text, a lone sign, another character, a number out of range) is an
/// error, here `None`.
pub open spec fn parse_i32(s: Seq<char>) -> Option<i32> {
    let d = unsigned_part(s);
    if d.len() == 0 || !all_digits(d) || signed_value(s) < i32::MIN || signed_value(s)
        > i32::MAX {
        None
    } else {
        Some(signed_value(s) as i32)
    }
}

/// Digits never write a negative number.
proof fn lemma_decimal_nonnegative(d: Seq<char>)
    requires
        all_digits(d),
    ensures
        decimal_value(d) >= 0,
    decreases d.len(),
{
    if d.len() > 0 {
        lemma_decimal_nonnegative(d.drop_last());
    }
}

/// A prefix of digits writes a number no greater than the whole.
proof fn lemma_decimal_prefix(d: Seq<char>, k: int)
    requires
        all_digits(d),
        0 <= k <= d.len(),
    ensures
        decimal_value(d.subrange(0, k)) <= decimal_value(d),
    decreases d.len(),
{
    if k == d.len() {
        assert(d.subrange(0, k) =~= d);
    } else {
        let init = d.drop_last();
        assert(init.subrange(0, k) =~= d.subrange(0, k));
        lemma_decimal_prefix(init, k);
        lemma_decimal_nonnegative(init);
    }
}

/// `s.parse::<i32>().ok()`.
pub fn parse_i32_str(s: &str) -> (r: Option<i32>)
    ensures
        r == parse_i32(s@),
{
    let n = s.unicode_len();
    if n == 0 {
        return None;
    }
    let first = s.get_char(0);
    let start: usize = if first == '-' || first == '+' {
        1
    } else {
        0
    };
    let ghost d = unsigned_part(s@);
    proof {
        if start == 1 {
            assert(d =~= s@.subrange(1, n as int));
        } else {
            assert(d =~= s@.subrange(0, n as int));
        }
    }
    if start == n {
        return None;
    }
    let mut acc: u64 = 0;
    let mut i: usize = start;
    proof {
        assert(d.subrange(0, 0) =~= Seq::<char>::empty());
    }
    while i < n
        invariant
            n == s@.len(),
            start <= i <= n,
            d == s@.subrange(start as int, n as int),
            d == unsigned_part(s@),
            acc == decimal_value(d.subrange(0, i - start)),
            acc <= 2147483648,
            all_digits(d.subrange(0, i - start)),
        decreases n - i,
    {
        let c = s.get_char(i);
        let code = c as u32;
        assert(d[i - start] == c);
        if code < 48 || code > 57 {
            assert(!all_digits(d) && !is_digit(d[i - start]));
            return None;
        }
        let ghost pre = d.subrange(0, i - start);
        let ghost post = d.subrange(0, i - start + 1);
        proof {
            assert(post.drop_last() =~= pre);
            assert(post.last() == c);
        }
        acc = acc * 10 + (code - 48) as u64;
        proof {
            assert(all_digits(post));
        }
        if acc > 2147483648 {
            proof {
                if all_digits(d) {
                    lemma_decimal_prefix(d, i - start + 1);
                }
            }
            return None;
        }
        i = i + 1;
    }
    proof {
        assert(d.subrange(0, n - start) =~= d);
    }
    if first == '-' {
        let v: i64 = 0 - (acc as i64);
        Some(v as i32)
    } else if acc <= 2147483647 {
        Some(acc as i32)
    } else {
        None
    }
}

/// The partition count a topic entry asks for: its number, or 1 where the
/// number does not parse.
pub open spec fn partition_count(text: Seq<char>) -> i32 {
    match parse_i32(text) {
        Some(n) => n,
        None => 1,
    }
}

/// The entry that one piece `topic:partitions` gives; a piece that does not
/// split into exactly two parts at `:` gives none.
pub open spec fn topic_entry(piece: Seq<char>) -> Option<(Seq<char>, i32)> {
    let parts = split(piece, ':');
    if parts.len() == 2 {
        Some((parts[0], partition_count(parts[1])))
    } else {
        None
    }
}

/// The entries that the pieces give, in order.
pub open spec fn topic_entries(pieces: Seq<Seq<char>>) -> Seq<(Seq<char>, i32)>
    decreases pieces.len(),
{
    if pieces.len() == 0 {
        Seq::empty()
    } else {
        let init = topic_entries(pieces.drop_last());
        match topic_entry(pieces.last()) {
            Some(e) => init.push(e),
            None => init,
        }
    }
}

/// The table that the entries make when gathered in order: where a topic comes
/// twice, the later entry wins.
pub open spec fn topic_table(entries: Seq<(Seq<char>, i32)>) -> Map<Seq<char>, i32>
    decreases entries.len(),
{
    if entries.len() == 0 {
        Map::empty()
    } else {
        topic_table(entries.drop_last()).insert(entries.last().0, entries.last().1)
    }
}

/// The topics, with their partition counts, that a configuration names.
pub open spec fn topics_of(config: Seq<char>) -> Map<Seq<char>, i32> {
    topic_table(topic_entries(split(config, ',')))
}

/// The names in a list of topics.
pub open spec fn topic_names(v: Seq<(String, i32)>) -> Seq<Seq<char>> {
    v.map_values(|e: (String, i32)| e.0@)
}

/// `v` lists the table `m`: each topic once, with its count.
pub open spec fn lists_table(v: Seq<(String, i32)>, m: Map<Seq<char>, i32>) -> bool {
    &&& topic_names(v).no_duplicates()
    &&& topic_names(v).to_set() == m.dom()
    &&& forall|i: int| 0 <= i < v.len() ==> m[#[trigger] v[i].0@] == v[i].1
}

/// The entry that one piece `topic:partitions` gives.
pub fn topic_entry_of(piece: &str) -> (e: Option<(String, i32)>)
    ensures
        e matches Some(p) ==> topic_entry(piece@) == Some((p.0@, p.1)),
        e is None ==> topic_entry(piece@) is None,
{
    let parts = split_str(piece, ':');
    proof {
        assert(views(parts@).len() == parts@.len());
    }
    if parts.len() == 2 {
        proof {
            assert(views(parts@)[0] == parts@[0]@);
            assert(views(parts@)[1] == parts@[1]@);
        }
        let n = match parse_i32_str(parts[1].as_str()) {
            Some(n) => n,
            None => 1,
        };
        Some((parts[0].clone(), n))
    } else {
        None
    }
}

/// Where in `v` the topic `name` stands, if anywhere.
fn position_of(v: &Vec<(String, i32)>, name: &String) -> (r: Option<usize>)
    ensures
        r matches Some(i) ==> i < v@.len() && v@[i as int].0@ == name@,
        r is None ==> forall|i: int| 0 <= i < v@.len() ==> (#[trigger] v@[i]).0@ != name@,
{
    let mut i: usize = 0;
    while i < v.len()
        invariant
            i <= v@.len(),
            forall|j: int| 0 <= j < i ==> (#[trigger] v@[j]).0@ != name@,
        decreases v@.len() - i,
    {
        if v[i].0 == *name {
            return Some(i);
        }
        i = i + 1;
    }
    None
}

/// Writes `name -> n` into the list `v` of the table `m`: afterwards `v` lists
/// `m.insert(name, n)`.
fn put_topic(v: &mut Vec<(String, i32)>, name: String, n: i32, Ghost(m): Ghost<
    Map<Seq<char>, i32>,
>)
    requires
        lists_table(old(v)@, m),
    ensures
        lists_table(final(v)@, m.insert(name@, n)),
{
    let ghost name_view = name@;
    let ghost m2 = m.insert(name_view, n);
    match position_of(v, &name) {
        Some(i) => {
            let ghost old_v = v@;
            v.set(i, (name, n));
            proof {
                assert(topic_names(v@) =~= topic_names(old_v));
                assert(m.dom().contains(name_view)) by {
                    assert(topic_names(old_v)[i as int] == name_view);
                }
                assert(m2.dom() =~= m.dom());
                assert forall|j: int| 0 <= j < v@.len() implies m2[#[trigger] v@[j].0@]
                    == v@[j].1 by {
                    if j != i {
                        assert(topic_names(old_v)[j] != topic_names(old_v)[i as int]);
                    }
                }
            }
        },
        None => {
            let ghost old_v = v@;
            v.push((name, n));
            proof {
                assert(topic_names(v@) =~= topic_names(old_v).push(name_view));
                assert(!topic_names(old_v).contains(name_view)) by {
                    if topic_names(old_v).contains(name_view) {
                        let j = choose|j: int|
                            0 <= j < topic_names(old_v).len() && topic_names(old_v)[j]
                                == name_view;
                        assert(old_v[j].0@ == name_view);
                    }
                }
                assert(topic_names(v@).to_set() =~= m2.dom()) by {
                    topic_names(old_v).lemma_push_to_set_commute(name_view);
                }
                assert forall|j: int| 0 <= j < v@.len() implies m2[#[trigger] v@[j].0@]
                    == v@[j].1 by {
                    if j < old_v.len() {
                        assert(v@[j] == old_v[j]);
                        assert(old_v[j].0@ != name_view);
                    }
                }
            }
        },
    }
}

/// The topics that a configuration `topic1:partitions,topic2:partitions`
/// names: pieces that do not split into exactly two parts are dropped, a
/// count that does not parse counts as 1, and where a topic comes twice the
/// later count wins. Each topic is listed once, in no promised order.
pub fn parse_topics(config: &str) -> (topics: Vec<(String, i32)>)
    ensures
        lists_table(topics@, topics_of(config@)),
{
    let pieces = split_str(config, ',');
    let ghost all = views(pieces@);
    let mut topics: Vec<(String, i32)> = Vec::new();
    let mut j: usize = 0;
    proof {
        assert(all.subrange(0, 0) =~= Seq::<Seq<char>>::empty());
        assert(topic_names(topics@) =~= Seq::<Seq<char>>::empty());
        assert(topic_names(topics@).to_set() =~= Set::<Seq<char>>::empty());
        assert(topic_table(topic_entries(all.subrange(0, 0))).dom() =~= Set::<Seq<char>>::empty());
    }
    while j < pieces.len()
        invariant
            all == views(pieces@),
            all == split(config@, ','),
            j <= pieces@.len(),
            lists_table(topics@, topic_table(topic_entries(all.subrange(0, j as int)))),
        decreases pieces@.len() - j,
    {
        let ghost pre = all.subrange(0, j as int);
        let ghost post = all.subrange(0, j as int + 1);
        proof {
            assert(post.drop_last() =~= pre);
            assert(post.last() == pieces@[j as int]@);
        }
        match topic_entry_of(pieces[j].as_str()) {
            Some(e) => {
                let (name, n) = e;
                put_topic(&mut topics, name, n, Ghost(topic_table(topic_entries(pre))));
                proof {
                    let es = topic_entries(pre).push((name@, n));
                    assert(topic_entries(post) == es);
                    assert(es.drop_last() =~= topic_entries(pre));
                }
            },
            None => {},
        }
        j = j + 1;
    }
    proof {
        assert(all.subrange(0, pieces@.len() as int) =~= all);
    }
    topics
}

/// A single decimal digit `'0'..='9'` parses as the number it stands for.
pub proof fn law_parse_single_digit(c: char)
    requires
        '0' <= c <= '9',
    ensures
        parse_i32(seq![c]) == Some(((c as int) - ('0' as int)) as i32),
{
    let s = seq![c];
    assert(unsigned_part(s) == s);
    assert(s.drop_last() =~= Seq::<char>::empty());
    assert(s.last() == c);
    assert(decimal_value(s.drop_last()) == 0);
    assert(('0' as int) == 48);
    assert(decimal_value(s) == (c as int) - ('0' as int));
}

/// Writing one more decimal digit after a number written in digits multiplies
/// it by ten and adds the digit, as long as the result fits in an `i32`.
pub proof fn law_parse_append_digit(d: Seq<char>, n: i32, c: char)
    requires
        d.len() > 0,
        forall|i: int| 0 <= i < d.len() ==> '0' <= #[trigger] d[i] <= '9',
        parse_i32(d) == Some(n),
        '0' <= c <= '9',
        10 * n + ((c as int) - ('0' as int)) <= i32::MAX,
    ensures
        parse_i32(d.push(c)) == Some((10 * n + ((c as int) - ('0' as int))) as i32),
{
    let e = d.push(c);
    assert('0' <= d[0] <= '9');
    assert(e[0] == d[0]);
    assert(unsigned_part(d) == d);
    assert(unsigned_part(e) == e);
    assert(e.drop_last() =~= d);
    assert(all_digits(e)) by {
        assert forall|i: int| 0 <= i < e.len() implies is_digit(#[trigger] e[i]) by {
            if i < d.len() {
                assert(e[i] == d[i]);
                assert('0' <= d[i] <= '9');
            }
        }
    }
    assert(all_digits(d)) by {
        assert forall|i: int| 0 <= i < d.len() implies is_digit(#[trigger] d[i]) by {
            assert('0' <= d[i] <= '9');
        }
    }
    lemma_decimal_nonnegative(d);
    assert(decimal_value(e) == 10 * decimal_value(d) + ((c as int) - ('0' as int)));
}

/// A leading minus sign negates the number that the digits after it write; a
/// leading plus sign leaves it as it is.
pub proof fn law_parse_sign(d: Seq<char>, n: i32)
    requires
        d.len() > 0,
        forall|i: int| 0 <= i < d.len() ==> '0' <= #[trigger] d[i] <= '9',
        parse_i32(d) == Some(n),
    ensures
        parse_i32(seq!['-'] + d) == Some((-n) as i32),
        parse_i32(seq!['+'] + d) == Some(n),
{
    assert('0' <= d[0] <= '9');
    assert(unsigned_part(d) == d);
    let neg = seq!['-'] + d;
    let pos = seq!['+'] + d;
    assert(neg[0] == '-');
    assert(pos[0] == '+');
    assert(neg.drop_first() =~= d);
    assert(pos.drop_first() =~= d);
    assert(all_digits(d)) by {
        assert forall|i: int| 0 <= i < d.len() implies is_digit(#[trigger] d[i]) by {
            assert('0' <= d[i] <= '9');
        }
    }
    lemma_decimal_nonnegative(d);
}

} // verus!
