use drawdown_solver::{drawdown_policy, is_failed, Drawdown, State, DRAWDOWN_FLOOR};

#[test]
fn test_max_drawdown_calculation_week2() {
    let state = State {
        s: 500,
        h: 500,
        d: 0,
        t: 0,
        is_restarted: true,
    };

    let policy = drawdown_policy(&state);
    let max_drawdown_allowed = policy.max_drawdown_allowed;
    let current_drawdown = policy.current_drawdown;
    let remaining_drawdown = policy.remaining_drawdown;

    assert_eq!(DRAWDOWN_FLOOR, 2000);
    assert_eq!(max_drawdown_allowed, 500, "2週目でMaxDDは口座残高と同じ500になるべき");
    assert_eq!(current_drawdown, 0, "口座残高とMLLが同じなので現在のドローダウンは0");
    assert_eq!(remaining_drawdown, 500, "最大許容リスクは500になるべき");
}

#[test]
fn test_max_drawdown_with_loss_week2() {
    let state = State {
        s: 300,
        h: 500,
        d: 0,
        t: 0,
        is_restarted: true,
    };

    let policy = drawdown_policy(&state);
    let max_drawdown_allowed = policy.max_drawdown_allowed;
    let current_drawdown = policy.current_drawdown;
    let remaining_drawdown = policy.remaining_drawdown;

    assert_eq!(DRAWDOWN_FLOOR, 2000);
    assert_eq!(max_drawdown_allowed, 500, "2週目でMaxDDはMLL値500になるべき");
    assert_eq!(current_drawdown, 200, "ドローダウンは500-300=200");
    assert_eq!(remaining_drawdown, 300, "残り許容リスクは500-200=300");
}

#[test]
fn test_max_drawdown_week1_balance_2500() {
    let state = State {
        s: 2500,
        h: 2500,
        d: 0,
        t: 0,
        is_restarted: false,
    };

    let policy = drawdown_policy(&state);
    let max_drawdown_allowed = policy.max_drawdown_allowed;
    let current_drawdown = policy.current_drawdown;
    let remaining_drawdown = policy.remaining_drawdown;

    assert_eq!(DRAWDOWN_FLOOR, 2000);
    assert_eq!(max_drawdown_allowed, 2500, "1週目でh>2000の場合MaxDDはh=2500");
    assert_eq!(current_drawdown, 0, "残高とMLLが同じなので現在のドローダウンは0");
    assert_eq!(remaining_drawdown, 2500, "最大許容リスクは2500になるべき");
}

#[test]
fn test_max_drawdown_week2_balance_2500() {
    let state = State {
        s: 2500,
        h: 2500,
        d: 0,
        t: 0,
        is_restarted: true,
    };

    let policy = drawdown_policy(&state);
    let max_drawdown_allowed = policy.max_drawdown_allowed;
    let current_drawdown = policy.current_drawdown;
    let remaining_drawdown = policy.remaining_drawdown;

    assert_eq!(DRAWDOWN_FLOOR, 2000);
    assert_eq!(max_drawdown_allowed, 2500, "2週目でMaxDDはh=2500");
    assert_eq!(current_drawdown, 0, "残高とMLLが同じなので現在のドローダウンは0");
    assert_eq!(remaining_drawdown, 2500, "最大許容リスクは2500になるべき");
}

#[test]
fn test_failure_condition_negative_2500() {
    let state_week1 = State {
        s: 0,
        h: 2500,
        d: 0,
        t: 0,
        is_restarted: false,
    };

    let state_week2 = State {
        s: 0,
        h: 2500,
        d: 0,
        t: 0,
        is_restarted: true,
    };

    assert!(is_failed(&state_week1), "1週目で残高0（実質-2500）は失効");
    assert!(is_failed(&state_week2), "2週目で残高0は失効");
}

#[test]
fn opening_regime_below_floor_allows_the_floor_whatever_the_balance() {
    for s in [-1500i64, 0, 700, 2000, 90000] {
        for h in [-300i64, 0, 1999, 2000] {
            let state = State { s, h, d: 3, t: 4, is_restarted: false };
            assert_eq!(drawdown_policy(&state).max_drawdown_allowed, 2000);
        }
    }
}

#[test]
fn opening_regime_above_floor_allows_the_high_water_mark() {
    let state = State { s: 1800, h: 2001, d: 0, t: 0, is_restarted: false };
    assert_eq!(
        drawdown_policy(&state),
        Drawdown { max_drawdown_allowed: 2001, current_drawdown: 201, remaining_drawdown: 1800 }
    );
}

#[test]
fn restarted_regime_allows_the_high_water_mark() {
    for h in [-40i64, 0, 1, 500, 2000, 2001, 70000] {
        let state = State { s: 10, h, d: 0, t: 0, is_restarted: true };
        assert_eq!(drawdown_policy(&state).max_drawdown_allowed, h as i128);
    }
}

#[test]
fn current_drawdown_is_never_negative() {
    let state = State { s: 900, h: 500, d: 0, t: 0, is_restarted: true };
    let policy = drawdown_policy(&state);
    assert_eq!(policy.current_drawdown, 0);
    assert_eq!(policy.remaining_drawdown, 500);
}

#[test]
fn drawdown_policy_takes_extreme_amounts() {
    let state = State { s: i64::MIN, h: i64::MAX, d: 0, t: 0, is_restarted: true };
    let policy = drawdown_policy(&state);
    assert_eq!(policy.max_drawdown_allowed, i64::MAX as i128);
    assert_eq!(policy.current_drawdown, i64::MAX as i128 - i64::MIN as i128);
    assert_eq!(policy.remaining_drawdown, i64::MIN as i128);
}

#[test]
fn failure_in_the_opening_regime_below_the_floor_is_relative_to_the_mark() {
    let at_limit = State { s: -1500, h: 500, d: 0, t: 0, is_restarted: false };
    let below = State { s: -1501, h: 500, d: 0, t: 0, is_restarted: false };
    let at_floor = State { s: 0, h: 2000, d: 0, t: 0, is_restarted: false };
    let under_floor = State { s: -1, h: 2000, d: 0, t: 0, is_restarted: false };
    assert!(!is_failed(&at_limit));
    assert!(is_failed(&below));
    assert!(!is_failed(&at_floor));
    assert!(is_failed(&under_floor));
}

#[test]
fn failure_above_the_floor_and_after_the_reset_is_an_empty_account() {
    let open_empty = State { s: 0, h: 2001, d: 0, t: 0, is_restarted: false };
    let open_one = State { s: 1, h: 2001, d: 0, t: 0, is_restarted: false };
    let reset_empty = State { s: 0, h: 100, d: 0, t: 0, is_restarted: true };
    let reset_one = State { s: 1, h: 100, d: 0, t: 0, is_restarted: true };
    let reset_negative = State { s: -5, h: 100, d: 0, t: 0, is_restarted: true };
    assert!(is_failed(&open_empty));
    assert!(!is_failed(&open_one));
    assert!(is_failed(&reset_empty));
    assert!(!is_failed(&reset_one));
    assert!(is_failed(&reset_negative));
}

#[test]
fn failure_predicate_takes_extreme_amounts() {
    let lowest = State { s: i64::MIN, h: i64::MIN, d: 0, t: 0, is_restarted: false };
    let highest = State { s: i64::MAX, h: i64::MAX, d: 0, t: 0, is_restarted: false };
    assert!(!is_failed(&lowest));
    assert!(!is_failed(&highest));
}

#[test]
fn range_check_follows_the_turn() {
    let widest = State { s: 2147483648 + 80000, h: 2147483648 + 80000, d: 0, t: 10, is_restarted: false };
    let too_early = State { t: 9, ..widest };
    let lowest = State { s: -2147483648 - 4000, h: -2147483648, d: 9, t: 1, is_restarted: true };
    let past_horizon = State { s: 0, h: 0, d: 0, t: 11, is_restarted: false };
    let low_mark = State { s: 0, h: -2147483649, d: 0, t: 3, is_restarted: false };
    assert!(widest.is_in_range());
    assert!(!too_early.is_in_range());
    assert!(lowest.is_in_range());
    assert!(!past_horizon.is_in_range());
    assert!(!low_mark.is_in_range());
}

#[test]
fn candidate_bets_are_counted_up_to_the_limit() {
    let none = State { s: 49, h: 49, d: 0, t: 0, is_restarted: true };
    let one = State { s: 99, h: 99, d: 0, t: 0, is_restarted: true };
    let ten = State { s: 500, h: 500, d: 0, t: 0, is_restarted: true };
    let six = State { s: 300, h: 500, d: 0, t: 0, is_restarted: true };
    let all = State { s: 9000, h: 9000, d: 0, t: 0, is_restarted: false };
    let floor = State { s: 100, h: 100, d: 0, t: 0, is_restarted: false };
    let nearly_all = State { s: 3999, h: 3999, d: 0, t: 0, is_restarted: false };
    assert_eq!(none.count_bets(), 0);
    assert_eq!(one.count_bets(), 1);
    assert_eq!(ten.count_bets(), 10);
    assert_eq!(six.count_bets(), 6);
    assert_eq!(all.count_bets(), 80);
    assert_eq!(floor.count_bets(), 40);
    assert_eq!(nearly_all.count_bets(), 79);
}

#[test]
fn a_win_pays_twice_the_bet_and_may_count_as_a_breach() {
    let state = State { s: 500, h: 600, d: 2, t: 3, is_restarted: false };
    assert_eq!(state.win(50), State { s: 600, h: 600, d: 2, t: 4, is_restarted: false });
    assert_eq!(state.win(99), State { s: 698, h: 698, d: 2, t: 4, is_restarted: false });
    assert_eq!(state.win(100), State { s: 700, h: 700, d: 3, t: 4, is_restarted: false });
    let behind = State { s: 100, h: 600, d: 4, t: 9, is_restarted: true };
    assert_eq!(behind.win(200), State { s: 500, h: 600, d: 5, t: 10, is_restarted: true });
}

#[test]
fn a_loss_costs_the_bet_and_nothing_else() {
    let state = State { s: 500, h: 600, d: 2, t: 3, is_restarted: true };
    assert_eq!(state.lose(450), State { s: 50, h: 600, d: 2, t: 4, is_restarted: true });
    assert_eq!(state.lose(4000), State { s: -3500, h: 600, d: 2, t: 4, is_restarted: true });
}

#[test]
fn a_reset_keeps_half_the_balance_from_a_hundred_on() {
    let enough = State { s: 200, h: 900, d: 5, t: 7, is_restarted: false };
    let odd = State { s: 1001, h: 1001, d: 5, t: 10, is_restarted: false };
    let short = State { s: 199, h: 900, d: 5, t: 7, is_restarted: false };
    let negative = State { s: -700, h: 900, d: 5, t: 7, is_restarted: false };
    let again = State { s: 5000, h: 5000, d: 5, t: 7, is_restarted: true };
    assert_eq!(enough.restart(), Some(State { s: 100, h: 100, d: 0, t: 0, is_restarted: true }));
    assert_eq!(odd.restart(), Some(State { s: 500, h: 500, d: 0, t: 0, is_restarted: true }));
    assert_eq!(short.restart(), None);
    assert_eq!(negative.restart(), None);
    assert_eq!(again.restart(), None);
}
