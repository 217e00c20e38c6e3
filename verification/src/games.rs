//! The games studio: a mech duel (QuatCombat), an 8x8 dungeon crawler
//! (SiliconRunner) and a four-planet trading game (SpaceTrader256).

use vstd::prelude::*;
use crate::kernel::texts;
use crate::text::push_dec;

verus! {

/// The game on screen.
#[derive(Clone, Copy, Debug, PartialEq, Eq, Structural)]
pub enum ActiveGame {
    Idle,
    QuatCombat,
    SiliconRunner,
    SpaceTrader,
}

/// The state of the three games.
pub struct GamesManager {
    pub active_game: ActiveGame,
    pub player_hp: i32,
    pub player_heat: i32,
    pub enemy_hp: i32,
    pub combat_log: Vec<String>,
    pub runner_pos: (usize, usize),
    pub runner_hp: i32,
    pub runner_bytes: u32,
    pub grid: [[char; 8]; 8],
    pub dungeon_log: String,
    pub credits: u32,
    pub cargo_silicon: u32,
    pub current_planet: usize,
    pub market_prices: [u32; 4],
    pub trader_log: String,
}

/// The starting dungeon: the player `P` top left, the exit `E` bottom
/// right, corrupted sectors `X` at (3, 2) and (1, 4), bytes `B` at (5, 5)
/// and (6, 1) (column, row).
pub open spec fn start_grid(x: int, y: int) -> char {
    if x == 0 && y == 0 {
        'P'
    } else if x == 7 && y == 7 {
        'E'
    } else if (x == 3 && y == 2) || (x == 1 && y == 4) {
        'X'
    } else if (x == 5 && y == 5) || (x == 6 && y == 1) {
        'B'
    } else {
        '.'
    }
}

/// The cell at column `x`, row `y` of the dungeon.
pub open spec fn grid_cell(g: [[char; 8]; 8], x: int, y: int) -> char {
    g@[y]@[x]
}

/// The planets' names.
pub open spec fn planet_name(i: int) -> Seq<char> {
    if i == 0 {
        "Planeta Q0 (Sirov Silicon)"@
    } else if i == 1 {
        "Planeta Q1 (DSP Čipovi)"@
    } else if i == 2 {
        "Planeta Q2 (EPROM Stanica)"@
    } else {
        "Planeta Q3 (Zvezdani Kvat)"@
    }
}

/// The price of silicon on planet `idx` after a ship lands there: it moves
/// by `3 * idx - 2` and stays within 5-80.
pub open spec fn landing_price(p: u32, idx: int) -> u32 {
    let v = signed_price(p) + 3 * idx - 2;
    if v < 5 {
        5
    } else if v > 80 {
        80
    } else {
        v as u32
    }
}

/// The price read as a signed 32-bit number, as the fluctuation does.
pub open spec fn signed_price(p: u32) -> int {
    if p <= i32::MAX {
        p as int
    } else {
        p - 0x1_0000_0000
    }
}

/// The message of a trade of one unit at `price`.
pub open spec fn trade_message(bought: bool, price: u32) -> Seq<char> {
    (if bought {
        "Kupljen 1 Silikon za "@
    } else {
        "Prodat 1 Silikon za "@
    }) + crate::text::dec_str(price as nat) + " CR."@
}

/// Only the duel changed.
pub open spec fn duel_only(a: GamesManager, b: GamesManager) -> bool {
    &&& b.active_game == a.active_game
    &&& b.runner_pos == a.runner_pos
    &&& b.runner_hp == a.runner_hp
    &&& b.runner_bytes == a.runner_bytes
    &&& b.grid == a.grid
    &&& b.dungeon_log == a.dungeon_log
    &&& b.credits == a.credits
    &&& b.cargo_silicon == a.cargo_silicon
    &&& b.current_planet == a.current_planet
    &&& b.market_prices == a.market_prices
    &&& b.trader_log == a.trader_log
}

/// Only the trading game changed.
pub open spec fn trade_only(a: GamesManager, b: GamesManager) -> bool {
    &&& b.active_game == a.active_game
    &&& b.player_hp == a.player_hp
    &&& b.player_heat == a.player_heat
    &&& b.enemy_hp == a.enemy_hp
    &&& b.combat_log == a.combat_log
    &&& b.runner_pos == a.runner_pos
    &&& b.runner_hp == a.runner_hp
    &&& b.runner_bytes == a.runner_bytes
    &&& b.grid == a.grid
    &&& b.dungeon_log == a.dungeon_log
}

/// The enemy's answer in the duel: a win once its HP is gone, else a hit
/// of 12 on the player.
pub open spec fn enemy_answer(enemy_hp: i32, player_hp: i32, log: Seq<Seq<char>>) -> (i32, Seq<Seq<char>>) {
    if enemy_hp <= 0 {
        (player_hp, log.push("🏆 POBEDA! AI Prototip je uništen!"@))
    } else {
        ((player_hp - 12) as i32, log.push("🤖 Neprijateljski Mech te je pogodio Kvat-Topom! (-12 HP)"@))
    }
}

impl GamesManager {
    /// No game on screen; the duel at full health, the dungeon at its start
    /// (50 HP, no bytes), 100 credits on planet Q0 with prices 10, 25, 40, 15.
    pub fn new() -> (g: GamesManager)
        ensures
            g.active_game == ActiveGame::Idle,
            g.player_hp == 100,
            g.player_heat == 0,
            g.enemy_hp == 100,
            texts(g.combat_log@) == seq!["Dobrodošao u QuatCombat Arenu! Choose your action."@],
            g.runner_pos == (0usize, 0usize),
            g.runner_hp == 50,
            g.runner_bytes == 0,
            forall|x: int, y: int| 0 <= x < 8 && 0 <= y < 8 ==> #[trigger] grid_cell(g.grid, x, y) == start_grid(x, y),
            g.dungeon_log@ == "Sišao si u korumpirani VRAM sektor..."@,
            g.credits == 100,
            g.cargo_silicon == 0,
            g.current_planet == 0,
            g.market_prices@ == seq![10u32, 25, 40, 15],
            g.trader_log@ == "Sleteo si na Planetu Q0. Tržište je stabilno."@,
    {
        let mut log: Vec<String> = Vec::new();
        log.push(String::from_str("Dobrodošao u QuatCombat Arenu! Choose your action."));
        let mut mgr = GamesManager {
            active_game: ActiveGame::Idle,
            player_hp: 100,
            player_heat: 0,
            enemy_hp: 100,
            combat_log: log,
            runner_pos: (0, 0),
            runner_hp: 50,
            runner_bytes: 0,
            grid: [['.'; 8]; 8],
            dungeon_log: String::from_str("Sišao si u korumpirani VRAM sektor..."),
            credits: 100,
            cargo_silicon: 0,
            current_planet: 0,
            market_prices: [10, 25, 40, 15],
            trader_log: String::from_str("Sleteo si na Planetu Q0. Tržište je stabilno."),
        };
        mgr.init_runner_grid();
        assert(texts(mgr.combat_log@) =~= seq!["Dobrodošao u QuatCombat Arenu! Choose your action."@]);
        assert(mgr.market_prices@ =~= seq![10u32, 25, 40, 15]);
        mgr
    }

    /// Lays out the starting dungeon (see `start_grid`).
    fn init_runner_grid(&mut self)
        ensures
            forall|x: int, y: int|
                0 <= x < 8 && 0 <= y < 8 ==> #[trigger] grid_cell(final(self).grid, x, y) == start_grid(x, y),
            final(self).active_game == old(self).active_game,
            final(self).player_hp == old(self).player_hp,
            final(self).player_heat == old(self).player_heat,
            final(self).enemy_hp == old(self).enemy_hp,
            final(self).combat_log == old(self).combat_log,
            final(self).runner_pos == old(self).runner_pos,
            final(self).runner_hp == old(self).runner_hp,
            final(self).runner_bytes == old(self).runner_bytes,
            final(self).dungeon_log == old(self).dungeon_log,
            final(self).credits == old(self).credits,
            final(self).cargo_silicon == old(self).cargo_silicon,
            final(self).current_planet == old(self).current_planet,
            final(self).market_prices == old(self).market_prices,
            final(self).trader_log == old(self).trader_log,
    {
        let mut g = [['.'; 8]; 8];
        g[0][0] = 'P';
        g[7][7] = 'E';
        g[2][3] = 'X';
        g[4][1] = 'X';
        g[5][5] = 'B';
        g[1][6] = 'B';
        self.grid = g;
    }

    /// The enemy's turn (see `enemy_answer`).
    fn enemy_turn(&mut self)
        requires
            old(self).enemy_hp > 0 ==> old(self).player_hp >= i32::MIN + 12,
        ensures
            (final(self).player_hp, texts(final(self).combat_log@)) == enemy_answer(
                old(self).enemy_hp,
                old(self).player_hp,
                texts(old(self).combat_log@),
            ),
            final(self).enemy_hp == old(self).enemy_hp,
            final(self).player_heat == old(self).player_heat,
            duel_only(*old(self), *final(self)),
    {
        let ghost before = texts(self.combat_log@);
        if self.enemy_hp <= 0 {
            self.combat_log.push(String::from_str("🏆 POBEDA! AI Prototip je uništen!"));
            assert(texts(self.combat_log@) =~= before.push("🏆 POBEDA! AI Prototip je uništen!"@));
            return;
        }
        self.player_hp -= 12;
        self.combat_log.push(String::from_str("🤖 Neprijateljski Mech te je pogodio Kvat-Topom! (-12 HP)"));
        assert(texts(self.combat_log@) =~= before.push("🤖 Neprijateljski Mech te je pogodio Kvat-Topom! (-12 HP)"@));
    }

    /// The plasma laser: with heat at most 85 it deals 20, heats by 15 and
    /// the enemy answers; hotter, it is refused.
    pub fn fire_laser(&mut self)
        requires
            old(self).player_heat <= 85 ==> old(self).enemy_hp >= i32::MIN + 20 && (old(self).enemy_hp - 20 > 0
                ==> old(self).player_hp >= i32::MIN + 12),
        ensures
            old(self).player_heat <= 85 ==> {
                let log = texts(old(self).combat_log@).push("Pogodio si protivnika Plazma Laserom! (-20 HP)"@);
                &&& final(self).enemy_hp == old(self).enemy_hp - 20
                &&& final(self).player_heat == old(self).player_heat + 15
                &&& (final(self).player_hp, texts(final(self).combat_log@)) == enemy_answer(
                    (old(self).enemy_hp - 20) as i32,
                    old(self).player_hp,
                    log,
                )
            },
            old(self).player_heat > 85 ==> {
                &&& final(self).enemy_hp == old(self).enemy_hp
                &&& final(self).player_heat == old(self).player_heat
                &&& final(self).player_hp == old(self).player_hp
                &&& texts(final(self).combat_log@) == texts(old(self).combat_log@).push(
                    "⚠️ PREGREVANJE! Moraš ohladiti sisteme!"@,
                )
            },
            duel_only(*old(self), *final(self)),
    {
        let ghost before = texts(self.combat_log@);
        if self.player_heat <= 85 {
            self.enemy_hp -= 20;
            self.player_heat += 15;
            self.combat_log.push(String::from_str("Pogodio si protivnika Plazma Laserom! (-20 HP)"));
            assert(texts(self.combat_log@) =~= before.push("Pogodio si protivnika Plazma Laserom! (-20 HP)"@));
            self.enemy_turn();
        } else {
            self.combat_log.push(String::from_str("⚠️ PREGREVANJE! Moraš ohladiti sisteme!"));
            assert(texts(self.combat_log@) =~= before.push("⚠️ PREGREVANJE! Moraš ohladiti sisteme!"@));
        }
    }

    /// Cooling and shields: heat drops by 30 (not below 0), HP rises by 10
    /// (not above 100), and the enemy answers.
    pub fn cool_down(&mut self)
        requires
            old(self).player_heat >= i32::MIN + 30,
            old(self).player_hp <= i32::MAX - 10,
            old(self).enemy_hp > 0 ==> (if old(self).player_hp + 10 < 100 {
                old(self).player_hp + 10
            } else {
                100
            }) >= i32::MIN + 12,
        ensures
            final(self).player_heat == (if old(self).player_heat - 30 > 0 {
                old(self).player_heat - 30
            } else {
                0
            }),
            ({
                let hp: i32 = if old(self).player_hp + 10 < 100 {
                    (old(self).player_hp + 10) as i32
                } else {
                    100
                };
                let log = texts(old(self).combat_log@).push("Sistemi rashlađeni, rekonfigurisani štitovi."@);
                (final(self).player_hp, texts(final(self).combat_log@)) == enemy_answer(old(self).enemy_hp, hp, log)
            }),
            final(self).enemy_hp == old(self).enemy_hp,
            duel_only(*old(self), *final(self)),
    {
        let ghost before = texts(self.combat_log@);
        let heat = self.player_heat - 30;
        self.player_heat = if heat > 0 {
            heat
        } else {
            0
        };
        let hp = self.player_hp + 10;
        self.player_hp = if hp < 100 {
            hp
        } else {
            100
        };
        self.combat_log.push(String::from_str("Sistemi rashlađeni, rekonfigurisani štitovi."));
        assert(texts(self.combat_log@) =~= before.push("Sistemi rashlađeni, rekonfigurisani štitovi."@));
        self.enemy_turn();
    }

    /// The EMP bomb: with heat at most 50 it deals 40, heats by 50 and the
    /// enemy answers; hotter, it is refused.
    pub fn fire_emp(&mut self)
        requires
            old(self).player_heat <= 50 ==> old(self).enemy_hp >= i32::MIN + 40 && (old(self).enemy_hp - 40 > 0
                ==> old(self).player_hp >= i32::MIN + 12),
        ensures
            old(self).player_heat <= 50 ==> {
                let log = texts(old(self).combat_log@).push("ISPALJEN EMP! Težak udarac na AI jezgro!"@);
                &&& final(self).enemy_hp == old(self).enemy_hp - 40
                &&& final(self).player_heat == old(self).player_heat + 50
                &&& (final(self).player_hp, texts(final(self).combat_log@)) == enemy_answer(
                    (old(self).enemy_hp - 40) as i32,
                    old(self).player_hp,
                    log,
                )
            },
            old(self).player_heat > 50 ==> {
                &&& final(self).enemy_hp == old(self).enemy_hp
                &&& final(self).player_heat == old(self).player_heat
                &&& final(self).player_hp == old(self).player_hp
                &&& texts(final(self).combat_log@) == texts(old(self).combat_log@).push(
                    "⚠️ Rizik od spaljivanja registara! Akcija odbijena."@,
                )
            },
            duel_only(*old(self), *final(self)),
    {
        let ghost before = texts(self.combat_log@);
        if self.player_heat <= 50 {
            self.enemy_hp -= 40;
            self.player_heat += 50;
            self.combat_log.push(String::from_str("ISPALJEN EMP! Težak udarac na AI jezgro!"));
            assert(texts(self.combat_log@) =~= before.push("ISPALJEN EMP! Težak udarac na AI jezgro!"@));
            self.enemy_turn();
        } else {
            self.combat_log.push(String::from_str("⚠️ Rizik od spaljivanja registara! Akcija odbijena."));
            assert(texts(self.combat_log@) =~= before.push("⚠️ Rizik od spaljivanja registara! Akcija odbijena."@));
        }
    }

    /// Moves the runner by `(dx, dy)` when the target lies in the dungeon:
    /// a corrupted sector costs 15 HP, a byte cell gives 64 bytes, the exit
    /// is announced; the runner leaves `.` behind and stands on the target
    /// as `P`.  A move off the dungeon does nothing.
    pub fn move_runner(&mut self, dx: i32, dy: i32)
        requires
            old(self).runner_pos.0 < 8,
            old(self).runner_pos.1 < 8,
            old(self).runner_pos.0 + dx <= i32::MAX,
            old(self).runner_pos.1 + dy <= i32::MAX,
            ({
                let nx = old(self).runner_pos.0 + dx;
                let ny = old(self).runner_pos.1 + dy;
                0 <= nx < 8 && 0 <= ny < 8 ==> {
                    &&& grid_cell(old(self).grid, nx, ny) == 'X' ==> old(self).runner_hp >= i32::MIN + 15
                    &&& grid_cell(old(self).grid, nx, ny) == 'B' ==> old(self).runner_bytes <= u32::MAX - 64
                }
            }),
        ensures
            ({
                let nx = old(self).runner_pos.0 + dx;
                let ny = old(self).runner_pos.1 + dy;
                if 0 <= nx < 8 && 0 <= ny < 8 {
                    let target = grid_cell(old(self).grid, nx, ny);
                    &&& final(self).runner_pos == (nx as usize, ny as usize)
                    &&& forall|x: int, y: int|
                        0 <= x < 8 && 0 <= y < 8 ==> #[trigger] grid_cell(final(self).grid, x, y) == (if x == nx
                            && y == ny {
                            'P'
                        } else if x == old(self).runner_pos.0 && y == old(self).runner_pos.1 {
                            '.'
                        } else {
                            grid_cell(old(self).grid, x, y)
                        })
                    &&& final(self).runner_hp == (if target == 'X' {
                        old(self).runner_hp - 15
                    } else {
                        old(self).runner_hp as int
                    })
                    &&& final(self).runner_bytes == (if target == 'B' {
                        old(self).runner_bytes + 64
                    } else {
                        old(self).runner_bytes as int
                    })
                    &&& final(self).dungeon_log@ == (if target == 'X' {
                        "⚠️ KORUMPIRAN SEKTOR! Pretrpeo si štetu od Memory Leak-a (-15 HP)"@
                    } else if target == 'B' {
                        "💎 Sakupio si 64 Bajta čiste memorije!"@
                    } else if target == 'E' {
                        "🎉 STIGAO SI DO IZLAZA! Sektor uspešno očaran!"@
                    } else {
                        "Kretanje po registru..."@
                    })
                } else {
                    &&& final(self).runner_pos == old(self).runner_pos
                    &&& final(self).grid == old(self).grid
                    &&& final(self).runner_hp == old(self).runner_hp
                    &&& final(self).runner_bytes == old(self).runner_bytes
                    &&& final(self).dungeon_log == old(self).dungeon_log
                }
            }),
            final(self).active_game == old(self).active_game,
            final(self).player_hp == old(self).player_hp,
            final(self).player_heat == old(self).player_heat,
            final(self).enemy_hp == old(self).enemy_hp,
            final(self).combat_log == old(self).combat_log,
            final(self).credits == old(self).credits,
            final(self).cargo_silicon == old(self).cargo_silicon,
            final(self).current_planet == old(self).current_planet,
            final(self).market_prices == old(self).market_prices,
            final(self).trader_log == old(self).trader_log,
    {
        let new_x = self.runner_pos.0 as i32 + dx;
        let new_y = self.runner_pos.1 as i32 + dy;
        if !(new_x >= 0 && new_x < 8 && new_y >= 0 && new_y < 8) {
            return;
        }
        let nx = new_x as usize;
        let ny = new_y as usize;
        let target = self.grid[ny][nx];
        if target == 'X' {
            self.runner_hp -= 15;
            self.dungeon_log = String::from_str("⚠️ KORUMPIRAN SEKTOR! Pretrpeo si štetu od Memory Leak-a (-15 HP)");
        } else if target == 'B' {
            self.runner_bytes += 64;
            self.dungeon_log = String::from_str("💎 Sakupio si 64 Bajta čiste memorije!");
        } else if target == 'E' {
            self.dungeon_log = String::from_str("🎉 STIGAO SI DO IZLAZA! Sektor uspešno očaran!");
        } else {
            self.dungeon_log = String::from_str("Kretanje po registru...");
        }
        let (ox, oy) = self.runner_pos;
        let mut g = self.grid;
        let mut row = g[oy];
        row[ox] = '.';
        g[oy] = row;
        let mut row = g[ny];
        row[nx] = 'P';
        g[ny] = row;
        self.grid = g;
        self.runner_pos = (nx, ny);
    }

    /// Buys one unit of silicon at the local price when the credits
    /// suffice.
    pub fn buy_silicon(&mut self)
        requires
            old(self).current_planet < 4,
            old(self).credits >= old(self).market_prices@[old(self).current_planet as int] ==> old(
                self,
            ).cargo_silicon < u32::MAX,
        ensures
            ({
                let price = old(self).market_prices@[old(self).current_planet as int];
                if old(self).credits >= price {
                    &&& final(self).credits == old(self).credits - price
                    &&& final(self).cargo_silicon == old(self).cargo_silicon + 1
                    &&& final(self).trader_log@ == trade_message(true, price)
                } else {
                    &&& final(self).credits == old(self).credits
                    &&& final(self).cargo_silicon == old(self).cargo_silicon
                    &&& final(self).trader_log@ == "Nemate dovoljno kredita!"@
                }
            }),
            final(self).current_planet == old(self).current_planet,
            final(self).market_prices == old(self).market_prices,
            trade_only(*old(self), *final(self)),
    {
        let price = self.market_prices[self.current_planet];
        if self.credits >= price {
            self.credits -= price;
            self.cargo_silicon += 1;
            let mut m = String::from_str("Kupljen 1 Silikon za ");
            push_dec(&mut m, price as u64);
            m.append(" CR.");
            self.trader_log = m;
        } else {
            self.trader_log = String::from_str("Nemate dovoljno kredita!");
        }
    }

    /// Sells one unit of silicon at the local price when there is cargo.
    pub fn sell_silicon(&mut self)
        requires
            old(self).current_planet < 4,
            old(self).cargo_silicon > 0 ==> old(self).credits + old(self).market_prices@[old(
                self,
            ).current_planet as int] <= u32::MAX,
        ensures
            ({
                let price = old(self).market_prices@[old(self).current_planet as int];
                if old(self).cargo_silicon > 0 {
                    &&& final(self).credits == old(self).credits + price
                    &&& final(self).cargo_silicon == old(self).cargo_silicon - 1
                    &&& final(self).trader_log@ == trade_message(false, price)
                } else {
                    &&& final(self).credits == old(self).credits
                    &&& final(self).cargo_silicon == old(self).cargo_silicon
                    &&& final(self).trader_log@ == "Nemate silikona u teretnjaku!"@
                }
            }),
            final(self).current_planet == old(self).current_planet,
            final(self).market_prices == old(self).market_prices,
            trade_only(*old(self), *final(self)),
    {
        let price = self.market_prices[self.current_planet];
        if self.cargo_silicon > 0 {
            self.cargo_silicon -= 1;
            self.credits += price;
            let mut m = String::from_str("Prodat 1 Silikon za ");
            push_dec(&mut m, price as u64);
            m.append(" CR.");
            self.trader_log = m;
        } else {
            self.trader_log = String::from_str("Nemate silikona u teretnjaku!");
        }
    }

    /// Flies to planet `idx` (another one) for 5 credits when they
    /// suffice: the local price then moves (see `landing_price`).
    pub fn jump_to_planet(&mut self, idx: usize)
        requires
            idx < 4,
            old(self).credits >= 5 ==> i32::MIN <= signed_price(old(self).market_prices@[idx as int]) + 3 * idx - 2
                <= i32::MAX,
        ensures
            old(self).credits >= 5 ==> {
                &&& final(self).credits == old(self).credits - 5
                &&& final(self).current_planet == idx
                &&& final(self).market_prices@ == old(self).market_prices@.update(
                    idx as int,
                    landing_price(old(self).market_prices@[idx as int], idx as int),
                )
                &&& final(self).trader_log@ == "Uspešan skok na "@ + planet_name(idx as int) + "!"@
                &&& final(self).cargo_silicon == old(self).cargo_silicon
            },
            old(self).credits < 5 ==> *final(self) == *old(self),
            trade_only(*old(self), *final(self)),
    {
        if self.credits >= 5 {
            self.credits -= 5;
            self.current_planet = idx;
            let price = self.market_prices[idx];
            let p: i64 = if price <= 0x7fff_ffff {
                price as i64
            } else {
                price as i64 - 0x1_0000_0000
            };
            let v: i64 = p + (idx as i64 * 3 - 2);
            let clamped: i64 = if v < 5 {
                5
            } else if v > 80 {
                80
            } else {
                v
            };
            self.market_prices[idx] = clamped as u32;
            let mut m = String::from_str("Uspešan skok na ");
            let name = if idx == 0 {
                "Planeta Q0 (Sirov Silicon)"
            } else if idx == 1 {
                "Planeta Q1 (DSP Čipovi)"
            } else if idx == 2 {
                "Planeta Q2 (EPROM Stanica)"
            } else {
                "Planeta Q3 (Zvezdani Kvat)"
            };
            m.append(name);
            m.append("!");
            self.trader_log = m;
        }
    }
}

} // verus!
