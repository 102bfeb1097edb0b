//! The character panel beside the log: what it says about the selected
//! bot (character, map, surroundings, automation, party and trade, tasks
//! and rules, cash shop, bag), line by line, from plain values of the
//! bot's snapshot.

use vstd::prelude::*;

use crate::board::{fmt_num, spec_fmt_num};
use crate::console::{signed_decimal, signed_string};
use crate::text::{copy_str, decimal, decimal_string, views_of};

verus! {

/// What the panel reads of the bot's snapshot.
pub struct SideView {
    pub name: String,
    pub level: u8,
    pub exp: i32,
    pub hp: i64,
    pub maxhp: i64,
    pub mp: i64,
    pub maxmp: i64,
    pub meso: i32,
    pub ap: u64,
    pub sp: u64,
    /// Skills learnt and keys bound.
    pub skills: u64,
    pub keymap: u64,
    pub my_cid: i64,
    pub mapid: i64,
    pub channel: u64,
    pub pos: (i64, i64),
    pub ground_y: i64,
    /// 1: facing left.
    pub facing: i64,
    pub mobs: u64,
    pub players: u64,
    pub drops: u64,
    pub npcs: u64,
    pub reactors: u64,
    pub hunt: bool,
    pub hunt_reactor: bool,
    pub gather: bool,
    /// Pull step in pixels (0 or less: pull everything at once).
    pub gather_step: i64,
    /// Milliseconds between pulls (0: every tick).
    pub gather_interval: u64,
    /// Monsters per pull (0: no limit).
    pub gather_max: u64,
    /// Attacks with a skill (else a plain attack).
    pub skill_mode: bool,
    /// The attack skill's id (0: none).
    pub attack_skill: u64,
    pub attack_range: i64,
    pub skill_max_targets: u64,
    pub attack_max_targets: u64,
    pub attack_cooldown: u64,
    pub attack_controller_only: bool,
    pub skill_range: i64,
    pub skill_mp_cost: u64,
    pub skill_hits: u32,
    /// Fights standing (else teleports between monsters).
    pub hunt_stand: bool,
    pub teleport_delay: u64,
    pub pickup_enabled: bool,
    /// Pickup range in pixels (0 or less: the whole map).
    pub pickup_range: i64,
    /// A fixed damage per hit (else level² / 2).
    pub damage: Option<i32>,
    /// When the automation stops by itself.
    pub until: Option<String>,
    /// Reconnecting: on, seconds between tries, tries (0: no limit).
    pub reconnect: (bool, u64, u64),
    /// Party: id, members, leader.
    pub party: Option<(i64, u64, String)>,
    pub trade: Option<String>,
    pub shop_open: bool,
    pub dialog_open: bool,
    /// Task stack, innermost first: task, step, steps.
    pub task_stack: Vec<(String, u64, u64)>,
    /// Rules: enabled, id.
    pub rules: Vec<(bool, String)>,
    /// Feature groups: enabled, id.
    pub groups: Vec<(bool, String)>,
    /// Cash shop: NX, points, items.
    pub cs: Option<(i64, i64, i64)>,
    /// Bag: equipment, use, set-up, etc, cash, worn.
    pub inv: (u64, u64, u64, u64, u64, u64),
}

/// The texts the front end looks up or draws for the panel (names from
/// the game's tables, the experience percentage, the bars).
pub struct SideNames {
    pub exp_pct: String,
    pub hp_bar: String,
    pub mp_bar: String,
    pub map_name: String,
    pub skill_name: String,
    /// The pickup filter in words (empty: no filter).
    pub pickup_filter: String,
}

pub open spec fn un(n: u64) -> Seq<char> {
    decimal(n as nat)
}

pub open spec fn sn(n: i64) -> Seq<char> {
    signed_decimal(n as int)
}

pub open spec fn mark(on: bool) -> Seq<char> {
    if on {
        "●"@
    } else {
        "○"@
    }
}

/// ` label ●` or ` label ○`.
pub open spec fn toggle_text(label: Seq<char>, on: bool) -> Seq<char> {
    " "@ + label + " "@ + mark(on)
}

pub open spec fn section(title: Seq<char>) -> Seq<char> {
    "✦ "@ + title
}

// ------------------------------------------------------------ character

pub open spec fn character_lines(v: SideView, n: SideNames) -> Seq<Seq<char>> {
    seq![section("角色"@)] + (if v.name@.len() > 0 {
        seq!["  "@ + v.name@]
    } else {
        Seq::empty()
    }) + seq!["  等级 "@ + un(v.level as u64) + " 经验 "@ + spec_fmt_num(v.exp) + " ("@ + n.exp_pct@ + "%)"@] + (
    if v.maxhp > 0 {
        seq![
            "  血量 "@ + n.hp_bar@ + " "@ + sn(v.hp) + "/"@ + sn(v.maxhp),
            "  蓝量 "@ + n.mp_bar@ + " "@ + sn(v.mp) + "/"@ + sn(v.maxmp),
        ]
    } else {
        Seq::empty()
    }) + seq![
        " 金币 "@ + spec_fmt_num(v.meso) + " 属性点 "@ + un(v.ap) + " 技能点 "@ + un(v.sp),
        " 已学技能 "@ + un(v.skills) + " 已设置按键 "@ + un(v.keymap) + " 角色ID "@ + sn(v.my_cid),
    ]
}

// ------------------------------------------------------------ map and scene

pub open spec fn map_lines(v: SideView, n: SideNames) -> Seq<Seq<char>> {
    seq![section("地图"@)] + (if v.mapid != 0 {
        seq!["  "@ + n.map_name@]
    } else {
        Seq::empty()
    }) + seq![
        "  频道 "@ + un(v.channel) + " 位置 ("@ + sn(v.pos.0) + ","@ + sn(v.pos.1) + ")地面 "@ + sn(v.ground_y) + " "@
            + (if v.facing == 1 { "朝左"@ } else { "朝右"@ }),
        section("场景"@),
        "  怪物 "@ + un(v.mobs) + " ·  玩家 "@ + un(v.players) + " ·  掉落物 "@ + un(v.drops),
        "  NPC "@ + un(v.npcs) + " ·  放置物 "@ + un(v.reactors),
    ]
}

// ------------------------------------------------------------ automation

pub open spec fn attack_mode_text(v: SideView, n: SideNames) -> Seq<char> {
    if v.skill_mode && v.attack_skill == 0 {
        "技能·普攻"@
    } else if v.skill_mode {
        "技能·"@ + n.skill_name@
    } else {
        "普攻"@
    }
}

pub open spec fn skill_text(v: SideView, n: SideNames) -> Seq<char> {
    if v.attack_skill > 0 {
        n.skill_name@ + " 范围"@ + sn(v.skill_range) + " 目标"@ + un(v.skill_max_targets) + " 蓝"@ + un(v.skill_mp_cost)
            + " 段"@ + un(v.skill_hits as u64)
    } else if v.skill_mode {
        "无技能群发 段"@ + un(v.skill_hits as u64)
    } else {
        "无(普攻)"@
    }
}

/// Damage of one hit: the fixed damage, else level² / 2.
pub open spec fn per_hit(v: SideView) -> int {
    match v.damage {
        Some(d) => d as int,
        None => (v.level as int) * (v.level as int) / 2,
    }
}

pub open spec fn damage_text(v: SideView) -> Seq<char> {
    "  伤害 "@ + (match v.damage {
        Some(d) => "固定 "@ + signed_decimal(d as int),
        None => "自动(等级²/2)"@,
    }) + (if v.skill_hits > 1 {
        " ×"@ + un(v.skill_hits as u64) + " = "@ + signed_decimal(per_hit(v) * (v.skill_hits as int))
    } else {
        Seq::empty()
    }) + " 自动停 "@ + (match v.until {
        Some(u) => u@,
        None => "无"@,
    })
}

pub open spec fn hunt_lines(v: SideView, n: SideNames) -> Seq<Seq<char>> {
    seq![
        section("挂机"@),
        " "@ + toggle_text("打怪"@, v.hunt) + toggle_text("放置物"@, v.hunt_reactor),
        " "@ + toggle_text("吸怪"@, v.gather) + " 步长 "@ + (if v.gather_step <= 0 {
            "全拉"@
        } else {
            sn(v.gather_step) + "px"@
        }) + " 间隔 "@ + (if v.gather_interval == 0 {
            "每tick"@
        } else {
            un(v.gather_interval) + "ms"@
        }) + " 每轮 "@ + (if v.gather_max == 0 {
            "不限"@
        } else {
            un(v.gather_max) + "只"@
        }),
        "  攻击 "@ + attack_mode_text(v, n) + " 攻击范围 "@ + sn(v.attack_range) + "px"@ + (if v.skill_mode {
            " 技能目标 "@ + un(v.skill_max_targets)
        } else {
            " 普攻数量 "@ + un(v.attack_max_targets)
        }),
        "  冷却 "@ + un(v.attack_cooldown) + "ms 控制权 "@ + (if v.attack_controller_only {
            "开"@
        } else {
            "关"@
        }) + " 技能 "@ + skill_text(v, n),
        "  移动 "@ + (if v.hunt_stand {
            "原地"@
        } else {
            "瞬移 冷却 "@ + un(v.teleport_delay) + "ms"@
        }),
        "  拾取 "@ + (if v.pickup_enabled {
            (if v.pickup_range <= 0 {
                "全图"@
            } else {
                sn(v.pickup_range) + "px"@
            }) + (if n.pickup_filter@.len() > 0 {
                " · "@ + n.pickup_filter@
            } else {
                Seq::empty()
            })
        } else {
            "关"@
        }),
        damage_text(v),
        "  重连 "@ + (if v.reconnect.0 {
            "● "@ + un(v.reconnect.1) + "s ×"@ + (if v.reconnect.2 == 0 {
                "∞"@
            } else {
                un(v.reconnect.2)
            })
        } else {
            "○ 关"@
        }),
    ]
}

// ------------------------------------------------------------ party, tasks

pub open spec fn party_lines(v: SideView) -> Seq<Seq<char>> {
    seq![
        section("队伍 / 交易"@),
        "  队伍 "@ + (match v.party {
            Some(p) => sn(p.0) + " ("@ + un(p.1) + "人, 队长 "@ + p.2@ + ")"@,
            None => "无"@,
        }),
        "  交易 "@ + (match v.trade {
            Some(t) => t@,
            None => "无"@,
        }),
    ] + (if v.shop_open {
        seq!["  商店已开"@]
    } else {
        Seq::empty()
    }) + (if v.dialog_open {
        seq!["  NPC对话中"@]
    } else {
        Seq::empty()
    })
}

/// One line per task of the stack, the innermost marked.
pub open spec fn task_lines(ts: Seq<(String, u64, u64)>) -> Seq<Seq<char>>
    decreases ts.len(),
{
    if ts.len() == 0 {
        Seq::empty()
    } else {
        let t = ts.last();
        task_lines(ts.drop_last()) + seq![
            "  "@ + (if ts.len() == 1 { "→"@ } else { "  "@ }) + " "@ + t.0@ + " ("@ + un(t.1) + "/"@ + un(t.2) + ")"@,
        ]
    }
}

/// How many rules are on.
pub open spec fn rules_on(rs: Seq<(bool, String)>) -> nat
    decreases rs.len(),
{
    if rs.len() == 0 {
        0
    } else {
        rules_on(rs.drop_last()) + if rs.last().0 { 1nat } else { 0nat }
    }
}

/// The ids of the rules that are on, joined by `,`.
pub open spec fn rules_on_ids(rs: Seq<(bool, String)>) -> Seq<char>
    decreases rs.len(),
{
    if rs.len() == 0 {
        Seq::empty()
    } else {
        let prev = rules_on_ids(rs.drop_last());
        if !rs.last().0 {
            prev
        } else if prev.len() == 0 {
            rs.last().1@
        } else {
            prev + ","@ + rs.last().1@
        }
    }
}

/// The groups, each `● id` or `○ id`, joined by two spaces.
pub open spec fn groups_text(gs: Seq<(bool, String)>) -> Seq<char>
    decreases gs.len(),
{
    if gs.len() == 0 {
        Seq::empty()
    } else if gs.len() == 1 {
        mark(gs[0].0) + " "@ + gs[0].1@
    } else {
        groups_text(gs.drop_last()) + "  "@ + mark(gs.last().0) + " "@ + gs.last().1@
    }
}

pub open spec fn rule_lines(v: SideView) -> Seq<Seq<char>> {
    let on = rules_on(v.rules@);
    seq![section("任务 / 规则"@)] + (if v.task_stack@.len() == 0 {
        seq!["  任务栈 无"@]
    } else {
        task_lines(v.task_stack@)
    }) + seq![
        "  规则 开"@ + decimal(on) + " 关"@ + decimal((v.rules@.len() - on) as nat) + (if on == 0 {
            Seq::empty()
        } else {
            " "@ + rules_on_ids(v.rules@)
        }),
    ] + (if v.groups@.len() > 0 {
        seq!["  组 "@ + groups_text(v.groups@)]
    } else {
        Seq::empty()
    })
}

pub open spec fn bag_lines(v: SideView) -> Seq<Seq<char>> {
    (match v.cs {
        Some(c) => seq![section("商城"@), " 点券 "@ + sn(c.0) + " · 点数 "@ + sn(c.1) + " · 物品 "@ + sn(c.2)],
        None => Seq::empty(),
    }) + seq![
        section("背包"@),
        " 装备 "@ + un(v.inv.0) + " 消耗 "@ + un(v.inv.1) + " 设置 "@ + un(v.inv.2) + " 其他 "@ + un(v.inv.3)
            + " 现金 "@ + un(v.inv.4) + " 已装备 "@ + un(v.inv.5),
    ]
}

/// The whole panel, top to bottom.
pub open spec fn spec_side_lines(v: SideView, n: SideNames) -> Seq<Seq<char>> {
    character_lines(v, n) + map_lines(v, n) + hunt_lines(v, n) + party_lines(v) + rule_lines(v) + bag_lines(v)
}


// ------------------------------------------------------------ building

fn u(n: u64) -> (s: String)
    ensures
        s@ == un(n),
{
    decimal_string(n)
}

fn sg(n: i64) -> (s: String)
    ensures
        s@ == sn(n),
{
    signed_string(n)
}

fn mark_of(on: bool) -> (s: &'static str)
    ensures
        s@ == mark(on),
{
    if on {
        "●"
    } else {
        "○"
    }
}

fn section_of(title: &str) -> (s: String)
    ensures
        s@ == section(title@),
{
    let mut s = copy_str("✦ ");
    s.append(title);
    s
}

/// Appends `line` to `out`.
fn put(out: &mut Vec<String>, line: String)
    ensures
        views_of(final(out)@) == views_of(old(out)@).push(line@),
{
    let ghost before = views_of(out@);
    out.push(line);
    proof {
        assert(views_of(out@) =~= before.push(line@));
    }
}

fn character_part(v: &SideView, n: &SideNames, out: &mut Vec<String>)
    ensures
        views_of(final(out)@) == views_of(old(out)@) + character_lines(*v, *n),
{
    let ghost start = views_of(out@);
    put(out, section_of("角色"));
    if v.name.as_str().unicode_len() > 0 {
        let mut l = copy_str("  ");
        l.append(v.name.as_str());
        put(out, l);
    }
    let ghost a = views_of(out@);
    let mut l = copy_str("  等级 ");
    l.append(u(v.level as u64).as_str());
    l.append(" 经验 ");
    l.append(fmt_num(v.exp).as_str());
    l.append(" (");
    l.append(n.exp_pct.as_str());
    l.append("%)");
    put(out, l);
    let ghost b = views_of(out@);
    if v.maxhp > 0 {
        let mut l = copy_str("  血量 ");
        l.append(n.hp_bar.as_str());
        l.append(" ");
        l.append(sg(v.hp).as_str());
        l.append("/");
        l.append(sg(v.maxhp).as_str());
        put(out, l);
        let mut l = copy_str("  蓝量 ");
        l.append(n.mp_bar.as_str());
        l.append(" ");
        l.append(sg(v.mp).as_str());
        l.append("/");
        l.append(sg(v.maxmp).as_str());
        put(out, l);
    }
    let ghost c = views_of(out@);
    let mut l = copy_str(" 金币 ");
    l.append(fmt_num(v.meso).as_str());
    l.append(" 属性点 ");
    l.append(u(v.ap).as_str());
    l.append(" 技能点 ");
    l.append(u(v.sp).as_str());
    put(out, l);
    let mut l = copy_str(" 已学技能 ");
    l.append(u(v.skills).as_str());
    l.append(" 已设置按键 ");
    l.append(u(v.keymap).as_str());
    l.append(" 角色ID ");
    l.append(sg(v.my_cid).as_str());
    put(out, l);
    proof {
        assert(views_of(out@) =~= start + character_lines(*v, *n));
    }
}

fn map_part(v: &SideView, n: &SideNames, out: &mut Vec<String>)
    ensures
        views_of(final(out)@) == views_of(old(out)@) + map_lines(*v, *n),
{
    let ghost start = views_of(out@);
    put(out, section_of("地图"));
    if v.mapid != 0 {
        let mut l = copy_str("  ");
        l.append(n.map_name.as_str());
        put(out, l);
    }
    let mut l = copy_str("  频道 ");
    l.append(u(v.channel).as_str());
    l.append(" 位置 (");
    l.append(sg(v.pos.0).as_str());
    l.append(",");
    l.append(sg(v.pos.1).as_str());
    l.append(")地面 ");
    l.append(sg(v.ground_y).as_str());
    l.append(" ");
    l.append(if v.facing == 1 { "朝左" } else { "朝右" });
    put(out, l);
    put(out, section_of("场景"));
    let mut l = copy_str("  怪物 ");
    l.append(u(v.mobs).as_str());
    l.append(" ·  玩家 ");
    l.append(u(v.players).as_str());
    l.append(" ·  掉落物 ");
    l.append(u(v.drops).as_str());
    put(out, l);
    let mut l = copy_str("  NPC ");
    l.append(u(v.npcs).as_str());
    l.append(" ·  放置物 ");
    l.append(u(v.reactors).as_str());
    put(out, l);
    proof {
        assert(views_of(out@) =~= start + map_lines(*v, *n));
    }
}

fn toggle_of(label: &str, on: bool) -> (s: String)
    ensures
        s@ == toggle_text(label@, on),
{
    let mut s = copy_str(" ");
    s.append(label);
    s.append(" ");
    s.append(mark_of(on));
    s
}

fn gather_line(v: &SideView, n: &SideNames) -> (s: String)
    ensures
        s@ == hunt_lines(*v, *n)[2],
{
    let mut l = copy_str(" ");
    l.append(toggle_of("吸怪", v.gather).as_str());
    l.append(" 步长 ");
    if v.gather_step <= 0 {
        l.append("全拉");
    } else {
        l.append(sg(v.gather_step).as_str());
        l.append("px");
    }
    l.append(" 间隔 ");
    if v.gather_interval == 0 {
        l.append("每tick");
    } else {
        l.append(u(v.gather_interval).as_str());
        l.append("ms");
    }
    l.append(" 每轮 ");
    if v.gather_max == 0 {
        l.append("不限");
    } else {
        l.append(u(v.gather_max).as_str());
        l.append("只");
    }
    l
}

fn attack_line(v: &SideView, n: &SideNames) -> (s: String)
    ensures
        s@ == hunt_lines(*v, *n)[3],
{
    let mut l = copy_str("  攻击 ");
    if v.skill_mode && v.attack_skill == 0 {
        l.append("技能·普攻");
    } else if v.skill_mode {
        l.append("技能·");
        l.append(n.skill_name.as_str());
    } else {
        l.append("普攻");
    }
    l.append(" 攻击范围 ");
    l.append(sg(v.attack_range).as_str());
    l.append("px");
    if v.skill_mode {
        l.append(" 技能目标 ");
        l.append(u(v.skill_max_targets).as_str());
    } else {
        l.append(" 普攻数量 ");
        l.append(u(v.attack_max_targets).as_str());
    }
    l
}

fn cooldown_line(v: &SideView, n: &SideNames) -> (s: String)
    ensures
        s@ == hunt_lines(*v, *n)[4],
{
    let mut l = copy_str("  冷却 ");
    l.append(u(v.attack_cooldown).as_str());
    l.append("ms 控制权 ");
    l.append(if v.attack_controller_only { "开" } else { "关" });
    l.append(" 技能 ");
    if v.attack_skill > 0 {
        l.append(n.skill_name.as_str());
        l.append(" 范围");
        l.append(sg(v.skill_range).as_str());
        l.append(" 目标");
        l.append(u(v.skill_max_targets).as_str());
        l.append(" 蓝");
        l.append(u(v.skill_mp_cost).as_str());
        l.append(" 段");
        l.append(u(v.skill_hits as u64).as_str());
    } else if v.skill_mode {
        l.append("无技能群发 段");
        l.append(u(v.skill_hits as u64).as_str());
    } else {
        l.append("无(普攻)");
    }
    l
}

fn move_pickup_lines(v: &SideView, n: &SideNames) -> (r: (String, String))
    ensures
        r.0@ == hunt_lines(*v, *n)[5],
        r.1@ == hunt_lines(*v, *n)[6],
{
    let mut m = copy_str("  移动 ");
    if v.hunt_stand {
        m.append("原地");
    } else {
        m.append("瞬移 冷却 ");
        m.append(u(v.teleport_delay).as_str());
        m.append("ms");
    }
    let mut p = copy_str("  拾取 ");
    if v.pickup_enabled {
        if v.pickup_range <= 0 {
            p.append("全图");
        } else {
            p.append(sg(v.pickup_range).as_str());
            p.append("px");
        }
        if n.pickup_filter.as_str().unicode_len() > 0 {
            p.append(" · ");
            p.append(n.pickup_filter.as_str());
        }
    } else {
        p.append("关");
    }
    (m, p)
}

fn damage_line(v: &SideView) -> (s: String)
    ensures
        s@ == damage_text(*v),
{
    let mut l = copy_str("  伤害 ");
    let per: i64 = match v.damage {
        Some(d) => {
            l.append("固定 ");
            l.append(signed_string(d as i64).as_str());
            d as i64
        },
        None => {
            l.append("自动(等级²/2)");
            let lv = v.level as i64;
            assert(0 <= lv * lv <= 65025) by (nonlinear_arith)
                requires
                    0 <= lv <= 255,
            ;
            lv * lv / 2
        },
    };
    assert(per == per_hit(*v));
    if v.skill_hits > 1 {
        l.append(" ×");
        l.append(u(v.skill_hits as u64).as_str());
        l.append(" = ");
        let h = v.skill_hits as i64;
        assert(-9223372036854775807 <= per * h <= 9223372036854775807) by (nonlinear_arith)
            requires
                -2147483648 <= per <= 2147483647,
                0 <= h <= 4294967295,
        ;
        let total: i64 = per * h;
        l.append(signed_string(total).as_str());
    }
    l.append(" 自动停 ");
    match &v.until {
        Some(t) => l.append(t.as_str()),
        None => l.append("无"),
    }
    l
}

fn reconnect_line(v: &SideView, n: &SideNames) -> (s: String)
    ensures
        s@ == hunt_lines(*v, *n)[8],
{
    let mut l = copy_str("  重连 ");
    if v.reconnect.0 {
        l.append("● ");
        l.append(u(v.reconnect.1).as_str());
        l.append("s ×");
        if v.reconnect.2 == 0 {
            l.append("∞");
        } else {
            l.append(u(v.reconnect.2).as_str());
        }
    } else {
        l.append("○ 关");
    }
    l
}

fn hunt_part(v: &SideView, n: &SideNames, out: &mut Vec<String>)
    ensures
        views_of(final(out)@) == views_of(old(out)@) + hunt_lines(*v, *n),
{
    let ghost start = views_of(out@);
    put(out, section_of("挂机"));
    let mut l = copy_str(" ");
    l.append(toggle_of("打怪", v.hunt).as_str());
    l.append(toggle_of("放置物", v.hunt_reactor).as_str());
    put(out, l);
    put(out, gather_line(v, n));
    put(out, attack_line(v, n));
    put(out, cooldown_line(v, n));
    let (m, p) = move_pickup_lines(v, n);
    put(out, m);
    put(out, p);
    put(out, damage_line(v));
    put(out, reconnect_line(v, n));
    proof {
        assert(views_of(out@) =~= start + hunt_lines(*v, *n));
    }
}

fn party_part(v: &SideView, out: &mut Vec<String>)
    ensures
        views_of(final(out)@) == views_of(old(out)@) + party_lines(*v),
{
    let ghost start = views_of(out@);
    let ghost pl = party_lines(*v);
    put(out, section_of("队伍 / 交易"));
    let mut l = copy_str("  队伍 ");
    match &v.party {
        Some(p) => {
            l.append(sg(p.0).as_str());
            l.append(" (");
            l.append(u(p.1).as_str());
            l.append("人, 队长 ");
            l.append(p.2.as_str());
            l.append(")");
            proof {
                assert(l@ =~= "  队伍 "@ + (sn(p.0) + " ("@ + un(p.1) + "人, 队长 "@ + p.2@ + ")"@));
            }
        },
        None => l.append("无"),
    }
    proof {
        assert(l@ == pl[1]);
    }
    put(out, l);
    let mut l = copy_str("  交易 ");
    match &v.trade {
        Some(t) => l.append(t.as_str()),
        None => l.append("无"),
    }
    proof {
        assert(l@ == pl[2]);
    }
    put(out, l);
    let ghost mid = views_of(out@);
    proof {
        assert(mid =~= start + seq![pl[0], pl[1], pl[2]]);
    }
    if v.shop_open {
        put(out, copy_str("  商店已开"));
    }
    let ghost mid2 = views_of(out@);
    proof {
        assert(mid2 =~= start + seq![pl[0], pl[1], pl[2]] + (if v.shop_open {
            seq!["  商店已开"@]
        } else {
            Seq::<Seq<char>>::empty()
        }));
    }
    if v.dialog_open {
        put(out, copy_str("  NPC对话中"));
    }
    proof {
        assert(views_of(out@) =~= start + party_lines(*v));
    }
}

fn task_part(ts: &Vec<(String, u64, u64)>, out: &mut Vec<String>)
    ensures
        views_of(final(out)@) == views_of(old(out)@) + task_lines(ts@),
{
    let ghost start = views_of(out@);
    let k = ts.len();
    for i in 0..k
        invariant
            k == ts@.len(),
            views_of(out@) == start + task_lines(ts@.take(i as int)),
    {
        proof {
            assert(ts@.take(i + 1).drop_last() =~= ts@.take(i as int));
        }
        let mut l = copy_str("  ");
        l.append(if i == 0 { "→" } else { "  " });
        l.append(" ");
        l.append(ts[i].0.as_str());
        l.append(" (");
        l.append(u(ts[i].1).as_str());
        l.append("/");
        l.append(u(ts[i].2).as_str());
        l.append(")");
        put(out, l);
        proof {
            assert(views_of(out@) =~= start + task_lines(ts@.take(i + 1)));
        }
    }
    proof {
        assert(ts@.take(k as int) =~= ts@);
    }
}

fn rules_summary(rs: &Vec<(bool, String)>) -> (r: (u64, String))
    ensures
        r.0 == rules_on(rs@),
        r.0 <= rs@.len(),
        r.1@ == rules_on_ids(rs@),
{
    let mut on: u64 = 0;
    let mut ids = String::new();
    let k = rs.len();
    for i in 0..k
        invariant
            k == rs@.len(),
            on == rules_on(rs@.take(i as int)),
            on <= i,
            ids@ == rules_on_ids(rs@.take(i as int)),
    {
        proof {
            assert(rs@.take(i + 1).drop_last() =~= rs@.take(i as int));
        }
        if rs[i].0 {
            on += 1;
            if ids.as_str().unicode_len() > 0 {
                ids.append(",");
            }
            ids.append(rs[i].1.as_str());
        }
    }
    proof {
        assert(rs@.take(k as int) =~= rs@);
    }
    (on, ids)
}

fn groups_of(gs: &Vec<(bool, String)>) -> (s: String)
    ensures
        s@ == groups_text(gs@),
{
    let mut s = String::new();
    let k = gs.len();
    for i in 0..k
        invariant
            k == gs@.len(),
            s@ == groups_text(gs@.take(i as int)),
    {
        proof {
            assert(gs@.take(i + 1).drop_last() =~= gs@.take(i as int));
        }
        if i > 0 {
            s.append("  ");
        }
        s.append(mark_of(gs[i].0));
        s.append(" ");
        s.append(gs[i].1.as_str());
        proof {
            if i == 0 {
                assert(gs@.take(1)[0] == gs@[0]);
            }
        }
    }
    proof {
        assert(gs@.take(k as int) =~= gs@);
    }
    s
}

fn rule_part(v: &SideView, out: &mut Vec<String>)
    ensures
        views_of(final(out)@) == views_of(old(out)@) + rule_lines(*v),
{
    let ghost start = views_of(out@);
    let ghost tasks = if v.task_stack@.len() == 0 {
        seq!["  任务栈 无"@]
    } else {
        task_lines(v.task_stack@)
    };
    put(out, section_of("任务 / 规则"));
    if v.task_stack.len() == 0 {
        put(out, copy_str("  任务栈 无"));
    } else {
        task_part(&v.task_stack, out);
    }
    let ghost a = views_of(out@);
    proof {
        assert(a =~= start + seq![section("任务 / 规则"@)] + tasks);
    }
    let (on, ids) = rules_summary(&v.rules);
    let mut l = copy_str("  规则 开");
    l.append(u(on).as_str());
    l.append(" 关");
    l.append(u(v.rules.len() as u64 - on).as_str());
    if on > 0 {
        l.append(" ");
        l.append(ids.as_str());
    }
    let ghost ron = rules_on(v.rules@);
    let ghost rl = "  规则 开"@ + decimal(ron) + " 关"@ + decimal((v.rules@.len() - ron) as nat) + (if ron == 0 {
        Seq::<char>::empty()
    } else {
        " "@ + rules_on_ids(v.rules@)
    });
    proof {
        assert(un(on) == decimal(ron));
        assert(un((v.rules@.len() - on) as u64) == decimal((v.rules@.len() - ron) as nat));
        assert(l@ =~= rl);
    }
    put(out, l);
    let ghost b = views_of(out@);
    proof {
        assert(b =~= start + seq![section("任务 / 规则"@)] + tasks + seq![rl]);
    }
    if v.groups.len() > 0 {
        let mut l = copy_str("  组 ");
        l.append(groups_of(&v.groups).as_str());
        put(out, l);
    }
    proof {
        assert(views_of(out@) =~= start + rule_lines(*v));
    }
}

fn bag_part(v: &SideView, out: &mut Vec<String>)
    ensures
        views_of(final(out)@) == views_of(old(out)@) + bag_lines(*v),
{
    let ghost start = views_of(out@);
    match v.cs {
        Some(c) => {
            put(out, section_of("商城"));
            let mut l = copy_str(" 点券 ");
            l.append(sg(c.0).as_str());
            l.append(" · 点数 ");
            l.append(sg(c.1).as_str());
            l.append(" · 物品 ");
            l.append(sg(c.2).as_str());
            put(out, l);
        },
        None => {},
    }
    put(out, section_of("背包"));
    let mut l = copy_str(" 装备 ");
    l.append(u(v.inv.0).as_str());
    l.append(" 消耗 ");
    l.append(u(v.inv.1).as_str());
    l.append(" 设置 ");
    l.append(u(v.inv.2).as_str());
    l.append(" 其他 ");
    l.append(u(v.inv.3).as_str());
    l.append(" 现金 ");
    l.append(u(v.inv.4).as_str());
    l.append(" 已装备 ");
    l.append(u(v.inv.5).as_str());
    put(out, l);
    proof {
        assert(views_of(out@) =~= start + bag_lines(*v));
    }
}

/// The panel's lines, top to bottom (see [`spec_side_lines`]).
pub fn side_lines(v: &SideView, names: &SideNames) -> (r: Vec<String>)
    ensures
        views_of(r@) == spec_side_lines(*v, *names),
{
    let mut out: Vec<String> = Vec::new();
    proof {
        assert(views_of(out@) =~= Seq::<Seq<char>>::empty());
    }
    character_part(v, names, &mut out);
    map_part(v, names, &mut out);
    hunt_part(v, names, &mut out);
    party_part(v, &mut out);
    rule_part(v, &mut out);
    bag_part(v, &mut out);
    proof {
        assert(views_of(out@) =~= spec_side_lines(*v, *names));
    }
    out
}
} // verus!
