use stack_interpreter::jump::{find_corresponding_t, find_corresponding_u};

fn chars(s: &str) -> Vec<char> {
    s.chars().collect()
}

#[test]
fn the_outer_t_matches_the_outer_u() {
    let p = chars("ttuu");
    assert_eq!(find_corresponding_u(&p, 0), 3);
    assert_eq!(find_corresponding_u(&p, 1), 2);
}

#[test]
fn the_outer_u_matches_the_outer_t() {
    let p = chars("ttuu");
    assert_eq!(find_corresponding_t(&p, 3), 0);
    assert_eq!(find_corresponding_t(&p, 2), 1);
}

#[test]
fn loops_side_by_side_do_not_mix() {
    let p = chars("atiubtiuc");
    assert_eq!(find_corresponding_u(&p, 1), 3);
    assert_eq!(find_corresponding_u(&p, 5), 7);
    assert_eq!(find_corresponding_t(&p, 3), 1);
    assert_eq!(find_corresponding_t(&p, 7), 5);
}

#[test]
fn deep_nesting() {
    let p = chars("tatbtcudueuf");
    assert_eq!(find_corresponding_u(&p, 0), 10);
    assert_eq!(find_corresponding_u(&p, 2), 8);
    assert_eq!(find_corresponding_u(&p, 4), 6);
    assert_eq!(find_corresponding_t(&p, 10), 0);
    assert_eq!(find_corresponding_t(&p, 8), 2);
    assert_eq!(find_corresponding_t(&p, 6), 4);
}

#[test]
fn a_t_without_a_u_leads_to_the_last_position() {
    assert_eq!(find_corresponding_u(&chars("taaa"), 0), 3);
    assert_eq!(find_corresponding_u(&chars("ttu"), 0), 2);
    assert_eq!(find_corresponding_u(&chars("t"), 0), 0);
    assert_eq!(find_corresponding_u(&chars("aut"), 2), 2);
}

#[test]
fn a_u_without_a_t_leads_to_the_first_position() {
    assert_eq!(find_corresponding_t(&chars("aaau"), 3), 0);
    assert_eq!(find_corresponding_t(&chars("tuu"), 2), 0);
    assert_eq!(find_corresponding_t(&chars("u"), 0), 0);
    assert_eq!(find_corresponding_t(&chars("auu"), 2), 0);
}

#[test]
fn the_search_starts_behind_the_position_whatever_stands_there() {
    let p = chars("atbuc");
    assert_eq!(find_corresponding_u(&p, 0), 4);
    assert_eq!(find_corresponding_u(&p, 2), 3);
    assert_eq!(find_corresponding_t(&p, 4), 0);
    assert_eq!(find_corresponding_t(&p, 2), 1);
}

#[test]
fn matching_goes_both_ways() {
    let p = chars("ttutuutttuuuatub");
    for (i, c) in p.iter().enumerate() {
        if *c == 't' {
            let u = find_corresponding_u(&p, i);
            assert_eq!(p[u], 'u');
            assert_eq!(find_corresponding_t(&p, u), i);
        }
    }
}
