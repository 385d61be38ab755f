//! Discounted-CFR self-play on the three-card game, driving the library's
//! verified tree navigation and integer payoffs, and checking the
//! equilibrium quality of the result.

use std::collections::HashMap;

use cfr_solver::game::{Game, GameNode};
use cfr_solver::game_kuhn::{KuhnGame, KuhnNode, BET_CALL};

const NUM_HANDS: usize = 3;
const NUM_ACTIONS: usize = 2;

type Table = HashMap<Vec<usize>, Vec<Vec<f64>>>;

fn zero_tables() -> Table {
    let mut table = Table::new();
    for history in KuhnGame::nonterminal_histories() {
        table.insert(history, vec![vec![0.0; NUM_HANDS]; NUM_ACTIONS]);
    }
    table
}

fn evaluate(node: &KuhnNode, player: usize, pmi: &[f64]) -> Vec<f64> {
    let mut cfvalue = vec![0.0; NUM_HANDS];
    for my_card in 0..NUM_HANDS {
        for opp_card in 0..NUM_HANDS {
            if my_card != opp_card {
                let payoff = KuhnGame::payoff(node, player, my_card, opp_card) as f64;
                cfvalue[my_card] += payoff * pmi[opp_card] / 6.0;
            }
        }
    }
    cfvalue
}

fn regret_matching(regrets: &[Vec<f64>]) -> Vec<Vec<f64>> {
    let mut strategy: Vec<Vec<f64>> = regrets
        .iter()
        .map(|row| row.iter().map(|&r| r.max(0.0)).collect())
        .collect();
    for hand in 0..NUM_HANDS {
        let denom: f64 = strategy.iter().map(|row| row[hand]).sum();
        for row in strategy.iter_mut() {
            row[hand] = if denom == 0.0 {
                1.0 / NUM_ACTIONS as f64
            } else {
                row[hand] / denom
            };
        }
    }
    strategy
}

struct Trainer {
    cum_regret: Table,
    cum_strategy: Table,
    alpha_t: f64,
    beta_t: f64,
    gamma_t: f64,
}

impl Trainer {
    fn new() -> Self {
        Trainer {
            cum_regret: zero_tables(),
            cum_strategy: zero_tables(),
            alpha_t: 1.0,
            beta_t: 1.0,
            gamma_t: 1.0,
        }
    }

    fn cfr_recursive(&mut self, node: &KuhnNode, player: usize, pi: &[f64], pmi: &[f64]) -> Vec<f64> {
        if node.is_terminal() {
            return evaluate(node, player, pmi);
        }
        let history = node.public_history().clone();
        let mut strategy = regret_matching(&self.cum_regret[&history]);
        let mut cfvalue = vec![0.0; NUM_HANDS];
        if node.current_player() == player {
            let mut cfvalue_actions = Vec::with_capacity(NUM_ACTIONS);
            for action in node.actions() {
                let pi_next: Vec<f64> =
                    (0..NUM_HANDS).map(|h| pi[h] * strategy[action][h]).collect();
                let cfvalue_action = self.cfr_recursive(&node.play(action), player, &pi_next, pmi);
                for hand in 0..NUM_HANDS {
                    cfvalue[hand] += strategy[action][hand] * cfvalue_action[hand];
                }
                cfvalue_actions.push(cfvalue_action);
            }
            for action in node.actions() {
                let cum_regret = &mut self.cum_regret.get_mut(&history).unwrap()[action];
                for hand in 0..NUM_HANDS {
                    cum_regret[hand] *= if cum_regret[hand] >= 0.0 {
                        self.alpha_t
                    } else {
                        self.beta_t
                    };
                    cum_regret[hand] += cfvalue_actions[action][hand] - cfvalue[hand];
                }
                let cum_strategy = &mut self.cum_strategy.get_mut(&history).unwrap()[action];
                for hand in 0..NUM_HANDS {
                    cum_strategy[hand] += self.gamma_t * strategy[action][hand] * pi[hand];
                }
            }
        } else {
            for action in node.actions() {
                let pmi_next: Vec<f64> =
                    (0..NUM_HANDS).map(|h| pmi[h] * strategy[action][h]).collect();
                let child_cfvalue =
                    self.cfr_recursive(&node.play(action), player, pi, &pmi_next);
                for hand in 0..NUM_HANDS {
                    cfvalue[hand] += child_cfvalue[hand];
                }
            }
        }
        cfvalue
    }

    fn compute(&mut self, num_iterations: u32) -> Table {
        let root = KuhnGame::root();
        let ones = vec![1.0; NUM_HANDS];
        for t in 0..num_iterations {
            let t_f64 = t as f64;
            self.alpha_t = t_f64.powf(1.5) / (t_f64.powf(1.5) + 1.0);
            self.beta_t = t_f64.powf(0.0) / (t_f64.powf(0.0) + 1.0);
            self.gamma_t = (t_f64 + 1.0).powf(2.0);
            for player in 0..2 {
                self.cfr_recursive(&root, player, &ones, &ones);
            }
        }
        let mut average = self.cum_strategy.clone();
        for strategy in average.values_mut() {
            for hand in 0..NUM_HANDS {
                let denom: f64 = strategy.iter().map(|row| row[hand]).sum();
                for row in strategy.iter_mut() {
                    row[hand] = if denom == 0.0 { 0.0 } else { row[hand] / denom };
                }
            }
        }
        average
    }
}

fn compute_ev_rec(node: &KuhnNode, player: usize, pi: &[f64], pmi: &[f64], strategy: &Table) -> f64 {
    if node.is_terminal() {
        return evaluate(node, player, pmi)
            .iter()
            .zip(pi)
            .map(|(v, p)| v * p)
            .sum();
    }
    let current = &strategy[node.public_history()];
    let mut total = 0.0;
    for action in node.actions() {
        let scaled: Vec<f64> = (0..NUM_HANDS)
            .map(|h| {
                if node.current_player() == player {
                    pi[h] * current[action][h]
                } else {
                    pmi[h] * current[action][h]
                }
            })
            .collect();
        total += if node.current_player() == player {
            compute_ev_rec(&node.play(action), player, &scaled, pmi, strategy)
        } else {
            compute_ev_rec(&node.play(action), player, pi, &scaled, strategy)
        };
    }
    total
}

fn compute_ev(player: usize, strategy: &Table) -> f64 {
    let ones = vec![1.0; NUM_HANDS];
    compute_ev_rec(&KuhnGame::root(), player, &ones, &ones, strategy)
}

fn best_cfvalues_rec(node: &KuhnNode, player: usize, pmi: &[f64], strategy: &Table) -> Vec<f64> {
    if node.is_terminal() {
        return evaluate(node, player, pmi);
    }
    if node.current_player() == player {
        let mut best: Option<Vec<f64>> = None;
        for action in node.actions() {
            let child = best_cfvalues_rec(&node.play(action), player, pmi, strategy);
            best = Some(match best {
                None => child,
                Some(prev) => prev
                    .iter()
                    .zip(&child)
                    .map(|(a, b)| a.max(*b))
                    .collect(),
            });
        }
        best.unwrap()
    } else {
        let current = &strategy[node.public_history()];
        let mut total = vec![0.0; NUM_HANDS];
        for action in node.actions() {
            let pmi_next: Vec<f64> =
                (0..NUM_HANDS).map(|h| pmi[h] * current[action][h]).collect();
            let child = best_cfvalues_rec(&node.play(action), player, &pmi_next, strategy);
            for hand in 0..NUM_HANDS {
                total[hand] += child[hand];
            }
        }
        total
    }
}

fn compute_exploitability(strategy: &Table) -> f64 {
    let ones = vec![1.0; NUM_HANDS];
    let root = KuhnGame::root;
    let br0: f64 = best_cfvalues_rec(&root(), 0, &ones, strategy).iter().sum();
    let br1: f64 = best_cfvalues_rec(&root(), 1, &ones, strategy).iter().sum();
    br0 + br1
}

fn uniform_strategy() -> Table {
    let mut table = Table::new();
    for history in KuhnGame::nonterminal_histories() {
        table.insert(history, vec![vec![0.5; NUM_HANDS]; NUM_ACTIONS]);
    }
    table
}

#[test]
fn regret_matching_is_a_distribution() {
    let cases: Vec<Vec<Vec<f64>>> = vec![
        vec![vec![1.0, -2.0, 0.0], vec![3.0, -1.0, 0.0]],
        vec![vec![-1.0, -2.0, -3.0], vec![-4.0, -0.5, -6.0]],
        vec![vec![0.25, 100.0, 1e-9], vec![0.75, 0.0, 1e-9]],
    ];
    for regrets in &cases {
        let strategy = regret_matching(regrets);
        for hand in 0..NUM_HANDS {
            let mut sum = 0.0;
            for row in &strategy {
                assert!(row[hand] >= 0.0);
                sum += row[hand];
            }
            assert!((sum - 1.0).abs() < 1e-12);
        }
    }
    // All regrets non-positive for a hand: that hand's strategy is uniform.
    let strategy = regret_matching(&vec![vec![-1.0, 0.0, 0.0], vec![-2.0, 0.0, 0.0]]);
    assert_eq!(strategy[0][0], 0.5);
    assert_eq!(strategy[1][0], 0.5);
}

#[test]
fn average_strategy_rows_sum_to_one_or_zero() {
    let strategy = Trainer::new().compute(1000);
    for rows in strategy.values() {
        for hand in 0..NUM_HANDS {
            let sum: f64 = rows.iter().map(|row| row[hand]).sum();
            assert!((sum - 1.0).abs() < 1e-9 || sum == 0.0);
        }
    }
}

#[test]
fn training_is_deterministic() {
    let first = Trainer::new().compute(2000);
    let second = Trainer::new().compute(2000);
    assert_eq!(first.len(), second.len());
    for (history, rows) in &first {
        let other = &second[history];
        for (row_a, row_b) in rows.iter().zip(other) {
            for (a, b) in row_a.iter().zip(row_b) {
                assert_eq!(a.to_bits(), b.to_bits());
            }
        }
    }
}

#[test]
fn converges_to_game_value() {
    let strategy = Trainer::new().compute(10000);
    let ev = compute_ev(0, &strategy);
    assert!((ev - (-1.0 / 18.0)).abs() < 1e-3, "ev = {ev}");
    let exploitability = compute_exploitability(&strategy);
    assert!(exploitability < 1e-3, "exploitability = {exploitability}");
    assert!(exploitability >= 0.0);
}

#[test]
fn root_bet_frequencies_match_known_equilibrium() {
    let strategy = Trainer::new().compute(10000);
    let root_bets = &strategy[&vec![]][BET_CALL];
    let lowest = root_bets[0];
    let middle = root_bets[1];
    let highest = root_bets[2];
    assert!((0.0..=1.0 / 3.0 + 1e-2).contains(&lowest), "lowest = {lowest}");
    assert!(middle < 1e-2, "middle = {middle}");
    assert!(
        (highest - 3.0 * lowest).abs() < 5e-2,
        "highest = {highest}, lowest = {lowest}"
    );
}

#[test]
fn exploitability_is_nonnegative_and_positive_off_equilibrium() {
    let uniform = uniform_strategy();
    let exploitability = compute_exploitability(&uniform);
    assert!(exploitability > 1e-3);
    let trained = Trainer::new().compute(100);
    assert!(compute_exploitability(&trained) >= 0.0);
}
