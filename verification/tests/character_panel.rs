use openstory_console::panel::{side_lines, SideNames, SideView};

fn view() -> SideView {
    SideView {
        name: "Player".into(),
        level: 30,
        exp: 12345,
        hp: 800,
        maxhp: 1000,
        mp: 20,
        maxmp: 300,
        meso: 1234567,
        ap: 5,
        sp: 3,
        skills: 12,
        keymap: 8,
        my_cid: 42,
        mapid: 100000000,
        channel: 2,
        pos: (-120, 35),
        ground_y: 35,
        facing: 1,
        mobs: 7,
        players: 2,
        drops: 4,
        npcs: 3,
        reactors: 1,
        hunt: true,
        hunt_reactor: false,
        gather: true,
        gather_step: 50,
        gather_interval: 0,
        gather_max: 6,
        skill_mode: true,
        attack_skill: 1001005,
        attack_range: 300,
        skill_max_targets: 6,
        attack_max_targets: 1,
        attack_cooldown: 600,
        attack_controller_only: false,
        skill_range: 350,
        skill_mp_cost: 12,
        skill_hits: 3,
        hunt_stand: false,
        teleport_delay: 800,
        pickup_enabled: true,
        pickup_range: 0,
        damage: None,
        until: None,
        reconnect: (true, 10, 0),
        party: Some((7, 3, "Leader".into())),
        trade: None,
        shop_open: true,
        dialog_open: false,
        task_stack: vec![("hunt".into(), 1, 3), ("sell".into(), 0, 2)],
        rules: vec![(true, "r1".into()), (false, "r2".into()), (true, "r3".into())],
        groups: vec![(true, "g1".into()), (false, "g2".into())],
        cs: None,
        inv: (10, 20, 3, 4, 0, 6),
    }
}

fn names() -> SideNames {
    SideNames {
        exp_pct: "12.5".into(),
        hp_bar: "HHH".into(),
        mp_bar: "MM".into(),
        map_name: "射手村".into(),
        skill_name: "强力攻击".into(),
        pickup_filter: "只捡金币".into(),
    }
}

#[test]
fn the_panel_reads_every_section_of_the_snapshot() {
    let lines = side_lines(&view(), &names());
    let expected: Vec<&str> = vec![
        "✦ 角色",
        "  Player",
        "  等级 30 经验 12,345 (12.5%)",
        "  血量 HHH 800/1000",
        "  蓝量 MM 20/300",
        " 金币 1,234,567 属性点 5 技能点 3",
        " 已学技能 12 已设置按键 8 角色ID 42",
        "✦ 地图",
        "  射手村",
        "  频道 2 位置 (-120,35)地面 35 朝左",
        "✦ 场景",
        "  怪物 7 ·  玩家 2 ·  掉落物 4",
        "  NPC 3 ·  放置物 1",
        "✦ 挂机",
        "  打怪 ● 放置物 ○",
        "  吸怪 ● 步长 50px 间隔 每tick 每轮 6只",
        "  攻击 技能·强力攻击 攻击范围 300px 技能目标 6",
        "  冷却 600ms 控制权 关 技能 强力攻击 范围350 目标6 蓝12 段3",
        "  移动 瞬移 冷却 800ms",
        "  拾取 全图 · 只捡金币",
        "  伤害 自动(等级²/2) ×3 = 1350 自动停 无",
        "  重连 ● 10s ×∞",
        "✦ 队伍 / 交易",
        "  队伍 7 (3人, 队长 Leader)",
        "  交易 无",
        "  商店已开",
        "✦ 任务 / 规则",
        "  → hunt (1/3)",
        "     sell (0/2)",
        "  规则 开2 关1 r1,r3",
        "  组 ● g1  ○ g2",
        "✦ 背包",
        " 装备 10 消耗 20 设置 3 其他 4 现金 0 已装备 6",
    ];
    assert_eq!(lines, expected);
}

#[test]
fn an_empty_snapshot_shows_the_defaults() {
    let mut v = view();
    v.name = String::new();
    v.maxhp = 0;
    v.mapid = 0;
    v.facing = 0;
    v.gather_step = 0;
    v.gather_interval = 250;
    v.gather_max = 0;
    v.skill_mode = false;
    v.attack_skill = 0;
    v.hunt_stand = true;
    v.pickup_enabled = false;
    v.damage = Some(-5);
    v.skill_hits = 1;
    v.until = Some("20:00".into());
    v.reconnect = (false, 10, 3);
    v.party = None;
    v.trade = Some("Other".into());
    v.shop_open = false;
    v.dialog_open = true;
    v.task_stack = vec![];
    v.rules = vec![(false, "r1".into())];
    v.groups = vec![];
    v.cs = Some((100, -2, 3));
    let mut n = names();
    n.skill_name = String::new();
    let lines = side_lines(&v, &n);
    let expected: Vec<&str> = vec![
        "✦ 角色",
        "  等级 30 经验 12,345 (12.5%)",
        " 金币 1,234,567 属性点 5 技能点 3",
        " 已学技能 12 已设置按键 8 角色ID 42",
        "✦ 地图",
        "  频道 2 位置 (-120,35)地面 35 朝右",
        "✦ 场景",
        "  怪物 7 ·  玩家 2 ·  掉落物 4",
        "  NPC 3 ·  放置物 1",
        "✦ 挂机",
        "  打怪 ● 放置物 ○",
        "  吸怪 ● 步长 全拉 间隔 250ms 每轮 不限",
        "  攻击 普攻 攻击范围 300px 普攻数量 1",
        "  冷却 600ms 控制权 关 技能 无(普攻)",
        "  移动 原地",
        "  拾取 关",
        "  伤害 固定 -5 自动停 20:00",
        "  重连 ○ 关",
        "✦ 队伍 / 交易",
        "  队伍 无",
        "  交易 Other",
        "  NPC对话中",
        "✦ 任务 / 规则",
        "  任务栈 无",
        "  规则 开0 关1",
        "✦ 商城",
        " 点券 100 · 点数 -2 · 物品 3",
        "✦ 背包",
        " 装备 10 消耗 20 设置 3 其他 4 现金 0 已装备 6",
    ];
    assert_eq!(lines, expected);
}

#[test]
fn a_skill_mode_without_a_skill_hits_with_a_plain_attack() {
    let mut v = view();
    v.attack_skill = 0;
    v.damage = Some(100);
    v.skill_hits = 4;
    let lines = side_lines(&v, &names());
    assert_eq!(lines[16], "  攻击 技能·普攻 攻击范围 300px 技能目标 6");
    assert_eq!(lines[17], "  冷却 600ms 控制权 关 技能 无技能群发 段4");
    assert_eq!(lines[20], "  伤害 固定 100 ×4 = 400 自动停 无");
}
