use mygrid_scheduler::battery::BatteryModel;
use mygrid_scheduler::block::BlockType;
use mygrid_scheduler::schedule::Schedule;
type Expected = (BlockType, usize, i128, i64, i64);
fn check(
    series: (&[i32], &[i32], &[i32]),
    battery: (i32, i32, i32, i32, i32, i64),
    soc_in: u8,
    costs: (i128, i128),
    blocks: &[Expected],
) {
    let model = BatteryModel::new(battery.0, battery.1, battery.2, battery.3, battery.4, battery.5).unwrap();
    let mut schedule = Schedule::new(model, None);
    let result = schedule
        .update_scheduling(&series.0.to_vec(), &series.1.to_vec(), &series.2.to_vec(), soc_in, 1_700_000_100)
        .unwrap();
    assert_eq!((result.base_cost, result.total_cost), costs);
    let got: Vec<Expected> =
        result.blocks.iter().map(|b| (b.block_type, b.size, b.cost, b.charge_in, b.charge_out)).collect();
    assert_eq!(got, blocks);
}

#[test]
fn sample_horizon_first() {
    check(
        (&[2_631_868, 1_971_382, 1_056_950, 2_866_727, 5_825_062], &[1_546_882, 1_403_651, 71_892, 971_407, 2_940_232], &[-447_639, 1_985_311, -1_957_604, -2_581_097, 414_563]),
        (15_300_000, 170_000, 1_500_000, 850, 900, 0),
        0,
        (9_040_000_000_000, 3_150_000_000_000),
        &[
            (BlockType::Use, 2, 1_178_126_759_652, 0, 1_687_514),
            (BlockType::Charge, 1, 1_148_461_787_950, 1_687_514, 2_550_000),
            (BlockType::Use, 2, 820_161_994_519, 2_550_000, 352_379),
        ],
    );
}

#[test]
fn sample_horizon_second() {
    check(
        (&[2_540_601, -172_102], &[985_296, 1_257_681], &[-474_201, 481_886]),
        (15_000_000, 10_000, 1_500_000, 1000, 930, 0),
        130,
        (0, 0),
        &[
            (BlockType::Use, 2, 0, 900_000, 871_992),
        ],
    );
}

#[test]
fn sample_horizon_third() {
    check(
        (&[4_593_436], &[1_084_082], &[106_886]),
        (15_300_000, 50_000, 500_000, 900, 900, 10_000_000_000),
        130,
        (0, 0),
        &[
            (BlockType::Use, 1, 0, 4_500_000, 4_596_197),
        ],
    );
}

#[test]
fn sample_horizon_fourth() {
    check(
        (&[5_385_219], &[1_577_661], &[-2_746_351]),
        (15_300_000, 170_000, 5_000_000, 970, 1000, 0),
        130,
        (0, 0),
        &[
            (BlockType::Use, 1, 0, 15_300_000, 12_553_649),
        ],
    );
}

#[test]
fn sample_horizon_fifth() {
    check(
        (&[5_814_829, 3_502_137, 2_577_954, 301_243], &[488_597, 2_368_143, 2_530_438, 753_737], &[-2_477_560, -562_023, -268_080, -1_251_419]),
        (1_000_000, 50_000, 5_000_000, 850, 900, 0),
        25,
        (13_520_000_000_000, 4_910_000_000_000),
        &[
            (BlockType::Charge, 1, 4_551_353_880_735, 750_000, 1_000_000),
            (BlockType::Use, 3, 355_925_533_089, 1_000_000, 0),
        ],
    );
}

#[test]
fn sample_horizon_sixth() {
    check(
        (&[4_222_264, 5_892_065, 3_372_967], &[2_926_943, 191_173, 2_312_107], &[-1_775_219, -2_370_078, -878_985]),
        (15_300_000, 10_000, 5_000_000, 970, 1000, 500_000_000_000),
        100,
        (20_620_000_000_000, 7_920_000_000_000),
        &[
            (BlockType::Use, 1, 3_695_405_675_816, 900_000, 0),
            (BlockType::Charge, 1, 1_430_116_124_735, 0, 50_000),
            (BlockType::Use, 1, 2_796_139_048_495, 50_000, 0),
        ],
    );
}

#[test]
fn sample_horizon_seventh() {
    check(
        (&[526_722, 1_800_521], &[1_318_547, 1_460_380], &[681_774, 920_148]),
        (15_000_000, 10_000, 500_000, 1000, 900, 0),
        60,
        (0, 0),
        &[
            (BlockType::Use, 2, 0, 500_000, 2_101_922),
        ],
    );
}

#[test]
fn sample_horizon_eighth() {
    check(
        (&[5_602_089, 3_253_666, 1_357_270, 1_345_506, 2_191_160], &[2_611_317, 242_385, 2_328_105, 215_452, 2_959_353], &[735_895, -184_347, -2_401_978, 147_739, 115_952]),
        (15_000_000, 10_000, 5_000_000, 1000, 850, 10_000_000_000),
        130,
        (1_620_000_000_000, 1_620_000_000_000),
        &[
            (BlockType::Use, 5, 1_623_042_467_780, 900_000, 263_691),
        ],
    );
}

#[test]
fn sample_horizon_ninth() {
    check(
        (&[1_202_026, 1_619_205], &[1_354_150, 619_065], &[415_683, 2_008_950]),
        (1_000_000, 50_000, 5_000_000, 1000, 930, 10_000_000_000),
        0,
        (0, 0),
        &[
            (BlockType::Use, 2, 0, 0, 1_000_000),
        ],
    );
}

#[test]
fn sample_horizon_tenth() {
    check(
        (&[145_935, 3_269_314, 4_605_542, 3_782_841, 4_328_821], &[2_678_259, 1_252_645, 1_253_227, 1_028_921, 1_741_014], &[1_551_171, -1_637_220, -2_253_755, -450_633, -452_375]),
        (5_000_000, 10_000, 5_000_000, 970, 930, 10_000_000_000),
        130,
        (11_280_000_000_000, 7_130_000_000_000),
        &[
            (BlockType::Use, 2, 0, 900_000, 644_184),
            (BlockType::Charge, 1, 6_036_801_681_798, 644_184, 700_000),
            (BlockType::Use, 2, 1_090_901_851_389, 700_000, 0),
        ],
    );
}

#[test]
fn sample_horizon_eleventh() {
    check(
        (&[3_353_729, 5_383_891], &[1_939_143, 109_436], &[-933_499, -2_935_575]),
        (1_000_000, 50_000, 5_000_000, 900, 1000, 500_000_000_000),
        25,
        (16_420_000_000_000, 14_890_000_000_000),
        &[
            (BlockType::Charge, 1, 14_887_682_614_247, 750_000, 3_000_000),
            (BlockType::Use, 1, 0, 3_000_000, 64_425),
        ],
    );
}

#[test]
fn sample_horizon_twelfth() {
    check(
        (&[1_790_846, 4_220_428, 3_608_837, 3_378_341, 4_217_461, -14_700], &[2_615_964, 257_800, 2_585_829, 2_298_077, 450_952, 1_842_182], &[-1_447_891, 2_129_717, -2_769_140, -2_737_382, 1_361_716, -657_634]),
        (1_000_000, 50_000, 5_000_000, 1000, 900, 0),
        130,
        (15_990_000_000_000, 15_350_000_000_000),
        &[
            (BlockType::Use, 3, 6_745_421_590_180, 4_500_000, 0),
            (BlockType::Charge, 1, 8_608_273_000_257, 0, 250_000),
            (BlockType::Use, 2, 0, 250_000, 269_296),
        ],
    );
}

#[test]
fn sample_horizon_thirteenth() {
    check(
        (&[5_484_200, 3_568_286, 2_188_532, 1_342_027, 1_339_227, 1_942_707], &[1_595_481, 176_714, 2_637_946, 693_241, 2_595_506, 416_102], &[-2_940_922, -191_584, -1_751_165, -602_331, -2_115_533, 1_691_604]),
        (15_300_000, 50_000, 1_500_000, 1000, 1000, 10_000_000_000),
        10,
        (24_290_000_000_000, 17_470_000_000_000),
        &[
            (BlockType::Charge, 1, 10_120_986_900_200, 0, 250_000),
            (BlockType::Use, 5, 7_346_158_732_396, 250_000, 1_691_604),
        ],
    );
}

#[test]
fn sample_horizon_fourteenth() {
    check(
        (&[3_090_709, 4_610_863], &[1_466_711, 2_883_461], &[-1_681_349, 2_153_989]),
        (15_300_000, 10_000, 1_500_000, 1000, 930, 0),
        130,
        (2_610_000_000_000, 2_610_000_000_000),
        &[
            (BlockType::Use, 2, 2_609_637_053_441, 900_000, 2_153_989),
        ],
    );
}
