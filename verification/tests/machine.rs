use plaine::miner::page::{CodeW, REGION_BYTES};
use plaine::miner::argv::Ask;
use plaine::miner::batch::{self, check, MIN_BATCH, UNKNOWN_L2_BATCH};
use plaine::miner::bench::{
    check as check_bench, page_line, pages, probe_cpus, thousands, unpinned_clock_note, Bench,
    Worker,
};
use plaine::miner::cpus::parse_cpu_list;
use plaine::miner::machine::{
    linux, model_from_cpuinfo, parse_range_list, parse_size_kib, split_by_capacity, Cache, Reading,
};
use plaine::miner::pad::{PadPages, Summary};
use plaine::miner::platforms::{macos, unread, windows, Counts};
use plaine::miner::topo::{fmt_list, Cpu, Topology};
use plaine::miner::worker::BATCH;

fn machine(l2_kib: Option<u32>, shared: Option<usize>, cores: usize, smt: usize) -> Topology {
    let mut cpus = Vec::new();
    for core in 0..cores {
        for _ in 0..smt {
            cpus.push(Cpu {
                id: cpus.len(),
                group: 0,
                package: 0,
                core: core as i32,
                class: None,
                l2_kib,
                l2_shared: shared,
            });
        }
    }
    Topology { model: "test".into(), cpus, source: "test", notes: Vec::new() }
}

#[test]
fn the_measured_machine_lands_on_four() {
    // Zen 4: 1 MiB L2 per core, two SMT threads sharing it. 4 is what the sweep found.
    let t = machine(Some(1024), Some(2), 8, 2);
    assert_eq!(batch::auto(&t, 16).batch, 4);
}

#[test]
fn sibling_count_stands_in_for_a_missing_share_count() {
    let named = machine(Some(1024), Some(2), 8, 2);
    let unnamed = machine(Some(1024), None, 8, 2);
    assert_eq!(batch::auto(&named, 16).batch, batch::auto(&unnamed, 16).batch);
}

#[test]
fn a_core_that_owns_its_l2_gets_a_bigger_batch() {
    let smt = machine(Some(1024), Some(2), 8, 2);
    let solo = machine(Some(1024), Some(1), 8, 1);
    assert!(
        batch::auto(&solo, 8).batch > batch::auto(&smt, 16).batch,
        "no sibling means the whole L2, which is room for more pads"
    );
}

#[test]
fn a_tiny_l2_still_seals_more_than_one_nonce() {
    let t = machine(Some(64), Some(2), 4, 2);
    assert_eq!(batch::auto(&t, 8).batch, MIN_BATCH, "the floor is what stops per-nonce sealing");
}

#[test]
fn a_huge_l2_stops_at_the_region_capacity() {
    let t = machine(Some(64 * 1024), Some(1), 4, 1);
    assert_eq!(batch::auto(&t, 4).batch, BATCH, "the code region cannot hold more than {BATCH}");
}

#[test]
fn an_unknown_l2_says_so_and_does_not_guess_high() {
    let t = machine(None, None, 8, 2);
    let c = batch::auto(&t, 16);
    assert_eq!(c.batch, UNKNOWN_L2_BATCH);
    assert!(c.why.contains("--batch"), "it has to name the escape hatch: {}", c.why);
    assert!(c.batch < BATCH, "guessing the capacity is the expensive mistake");
}

#[test]
fn explicit_values_are_bounded_by_the_region() {
    assert_eq!(check(1), Ok(1));
    assert_eq!(check(BATCH), Ok(BATCH));
    assert!(check(0).is_err());
    assert!(check(BATCH + 1).is_err());
}

#[test]
fn every_automatic_choice_is_a_legal_explicit_one() {
    for l2 in [Some(64u32), Some(256), Some(512), Some(1024), Some(2048), None] {
        for smt in [1usize, 2] {
            let t = machine(l2, Some(smt), 8, smt);
            let c = batch::auto(&t, 8 * smt);
            assert_eq!(check(c.batch), Ok(c.batch), "l2={l2:?} smt={smt}");
        }
    }
}

#[test]
fn thousands_are_grouped() {
    assert_eq!(thousands(0), "0");
    assert_eq!(thousands(999), "999");
    assert_eq!(thousands(1_000), "1 000");
    assert_eq!(thousands(2_480_137), "2 480 137");
}

fn bench(secs: u64, threads: usize, cpus: Option<Vec<usize>>) -> Bench {
    Bench { secs, threads, cpus, pages: Ask::Auto, verbose: false }
}

#[test]
fn zero_window_is_refused() {
    assert!(check_bench(&bench(0, 1, None)).is_err());
    assert!(check_bench(&bench(1, 1, None)).is_ok());
}

fn regions(kinds: &[(PadPages, usize)]) -> Summary {
    let mut all = Vec::new();
    for (kind, n) in kinds {
        all.extend(vec![*kind; *n]);
    }
    Summary::of(&all)
}

#[test]
fn page_line_shows_every_region() {
    let none = regions(&[(PadPages::Base, 12)]);
    let all = regions(&[(PadPages::HugeTlb, 12)]);
    let some = regions(&[(PadPages::Large, 4), (PadPages::Base, 8)]);
    let two_ways = regions(&[(PadPages::HugeTlb, 1), (PadPages::Transparent, 11)]);

    assert_eq!(page_line("ordinary pages", none, 4096), "ordinary pages, base page 4 KiB");

    let forced = regions(&[(PadPages::Base, 12)]);
    assert!(page_line("asked for huge pages and did not get them", forced, 4096)
        .contains("did not get them"));

    assert_eq!(
        page_line("2M/hugetlb pages", all, 4096),
        "2M/hugetlb pages for all 12 worker regions"
    );

    let partial = page_line("2M/large pages", some, 4096);
    assert!(partial.contains("4 of 12 worker regions"), "{partial}");
    assert!(partial.contains("this run mixes"), "{partial}");
    assert!(!partial.contains("all 12"), "a partial success reported as complete: {partial}");

    assert_eq!(
        page_line("2M/hugetlb pages", two_ways, 4096),
        "2M/mixed pages for all 12 worker regions"
    );
}

#[test]
fn an_unpinned_run_on_part_of_a_machine_has_no_clock() {
    let t = topo((0..8).map(|i| cpu(i, 0, i as i32, None)).collect());
    assert!(unpinned_clock_note(&bench(1, 2, None), &t).is_some());
    assert!(unpinned_clock_note(&bench(1, 8, None), &t).is_none());
    assert!(unpinned_clock_note(&bench(1, 2, Some(vec![0, 1])), &t).is_none());
    assert_eq!(probe_cpus(&bench(1, 2, Some(vec![3, 1])), &t), vec![3, 1]);
    assert_eq!(probe_cpus(&bench(1, 9, None), &t), (0..8).collect::<Vec<_>>());
    assert!(probe_cpus(&bench(1, 2, None), &t).is_empty());
}

#[test]
fn a_report_counts_the_regions_of_its_workers() {
    let worker = |pages| Worker { cpu: None, placement: None, pages, rate: "1 kH/s".to_string() };
    let ws = vec![worker(PadPages::Base), worker(PadPages::HugeTlb), worker(PadPages::Base)];
    let s = pages(&ws);
    assert_eq!(s.total(), 3);
    assert_eq!(s.huge(), 1);
}

fn cpu(id: usize, package: i32, core: i32, class: Option<u8>) -> Cpu {
    Cpu { id, group: 0, package, core, class, l2_kib: None, l2_shared: None }
}

fn topo(cpus: Vec<Cpu>) -> Topology {
    Topology { model: String::new(), cpus, source: "test", notes: Vec::new() }
}

#[test]
fn a_phone_splits_into_its_big_and_little_cores_by_capacity() {
    // A Snapdragon 732G (the Poco X3): two Cortex-A76 at full capacity, six
    // Cortex-A55 at well under half of it.
    let caps: Vec<(usize, u32)> =
        (0..6).map(|id| (id, 423)).chain((6..8).map(|id| (id, 1024))).collect();
    let (fast, slow) = split_by_capacity(&caps).expect("two classes");
    assert_eq!(fast, [6, 7]);
    assert_eq!(slow, [0, 1, 2, 3, 4, 5]);
    assert_eq!(split_by_capacity(&[(0, 1024), (1, 1024)]), None, "one class, nothing to split");
    assert_eq!(split_by_capacity(&[]), None);
}

#[test]
fn spread_puts_the_big_cores_first() {
    // Little cluster: package 0, cores 0-5; big cluster: package 1, cores 0-1.
    let mut cpus: Vec<Cpu> = (0..6).map(|id| cpu(id, 0, id as i32, Some(0))).collect();
    cpus.extend((6..8).map(|id| cpu(id, 1, id as i32 - 6, Some(1))));
    assert_eq!(topo(cpus).spread(), [6, 7, 0, 1, 2, 3, 4, 5]);
}

#[test]
fn the_model_is_read_from_x86_and_arm_cpuinfo_alike() {
    let x86 = "processor\t: 0\nvendor_id\t: AuthenticAMD\nmodel name\t: AMD Ryzen 7 8745HS\n";
    assert_eq!(model_from_cpuinfo(x86), "AMD Ryzen 7 8745HS");
    let android = "processor\t: 0\nBogoMIPS\t: 38.40\nFeatures\t: fp asimd\n\
                   CPU implementer\t: 0x51\n\nHardware\t: Qualcomm Technologies, Inc SM7150\n";
    assert_eq!(model_from_cpuinfo(android), "Qualcomm Technologies, Inc SM7150");
    assert_eq!(model_from_cpuinfo("Processor\t: AArch64 Processor rev 13 (aarch64)\n"),
        "AArch64 Processor rev 13 (aarch64)");
    assert_eq!(model_from_cpuinfo(""), "");
}

#[test]
fn spread_visits_every_core_before_any_sibling() {
    // 8 cores, siblings numbered n/n+1 - the layout of the machine the pinning
    // default was measured on.
    let t = topo((0..16).map(|i| cpu(i, 0, (i / 2) as i32, None)).collect());
    assert_eq!(t.spread(), vec![0, 2, 4, 6, 8, 10, 12, 14, 1, 3, 5, 7, 9, 11, 13, 15]);
}

#[test]
fn spread_reads_a_wide_sibling_stride() {
    // Dual Broadwell numbering, n/n+28: plain id order would pin the first 28
    // workers onto 14 cores twice over.
    let cpus: Vec<Cpu> =
        (0..56).map(|i| cpu(i, (i % 28 / 14) as i32, (i % 28) as i32, None)).collect();
    let s = topo(cpus).spread();
    assert_eq!(&s[..28], &(0..28).collect::<Vec<_>>()[..], "first pass: one CPU per core");
    assert_eq!(&s[28..], &(28..56).collect::<Vec<_>>()[..], "then the siblings");
}

#[test]
fn fewer_workers_than_cpus_land_on_distinct_cores() {
    let t = topo((0..16).map(|i| cpu(i, 0, (i / 2) as i32, None)).collect());
    let first8: Vec<usize> = t.spread().into_iter().take(8).collect();
    assert_eq!(t.cores_covered(&first8), Some(8), "no core may be double-booked");
}

#[test]
fn spread_without_core_identity_is_plain_id_order() {
    let t = topo((0..6).map(|i| cpu(i, -1, -1, None)).collect());
    assert_eq!(t.spread(), vec![0, 1, 2, 3, 4, 5]);
}

#[test]
fn spread_is_a_permutation() {
    let t = topo((0..12).map(|i| cpu(i, 0, (i % 6) as i32, None)).collect());
    let mut s = t.spread();
    s.sort_unstable();
    assert_eq!(s, (0..12).collect::<Vec<_>>(), "every CPU exactly once");
}

#[test]
fn sibling_stride_is_read_not_assumed() {
    let cpus: Vec<Cpu> =
        (0..56).map(|i| cpu(i, (i % 28 / 14) as i32, (i % 28) as i32, None)).collect();
    let t = topo(cpus);
    assert_eq!(t.sibling_strides(), vec![28]);
    assert_eq!(t.one_per_core().unwrap().len(), 28);

    let cpus: Vec<Cpu> = (0..16).map(|i| cpu(i, 0, (i / 2) as i32, None)).collect();
    assert_eq!(topo(cpus).sibling_strides(), vec![1]);
}

#[test]
fn unknown_core_identity_is_none() {
    let t = topo((0..8).map(|i| cpu(i, -1, -1, None)).collect());
    assert!(t.cores().is_none());
    assert!(t.one_per_core().is_none());
    assert!(!t.smt());
    assert!(t.sibling_strides().is_empty());
    assert!(t.cores_covered(&[0, 1]).is_none());
}

#[test]
fn hybrid_parts_split_by_class() {
    let mut cpus: Vec<Cpu> = (0..4).map(|i| cpu(i, 0, (i / 2) as i32, Some(1))).collect();
    cpus.extend((4..12).map(|i| cpu(i, 0, i as i32 - 2, Some(0))));
    let t = topo(cpus);
    assert!(t.hybrid());
    assert_eq!(t.performance_cpus().unwrap(), vec![0, 1, 2, 3]);
    assert_eq!(t.cores().unwrap().len(), 10);
    assert_eq!(t.sibling_strides(), vec![1]);

    assert_eq!(t.cores_covered(&[0, 1, 2, 3]), Some(2));
    assert_eq!(t.cores_covered(&[0, 2, 4, 5]), Some(4));

    let u = topo((0..4).map(|i| cpu(i, 0, i as i32, Some(0))).collect());
    assert!(!u.hybrid());
    assert!(u.performance_cpus().is_none());
}

#[test]
fn printed_pin_list_round_trips() {
    assert_eq!(fmt_list(&[0, 1, 2, 3, 8, 9, 10, 11]), "0-3,8-11");
    assert_eq!(fmt_list(&[0, 2, 4, 6]), "0,2,4,6");
    assert_eq!(fmt_list(&[5]), "5");
    assert_eq!(fmt_list(&[]), "");
}


#[test]
fn real_machine_reads_consistently() {
    let read = linux(
        "a part".to_string(),
        None,
        &(0..4).map(|id| reading(id, Some((id / 2) as i32))).collect::<Vec<_>>(),
        Vec::new(),
        Vec::new(),
    );
    let t = Topology::detect(read, 4);
    assert!(t.logical() >= 1);
    if let Some(cores) = t.cores() {
        assert_eq!(cores.iter().map(|c| c.len()).sum::<usize>(), t.logical());
    }

    assert!(t.render().contains("plaine-miner topology"));
}

fn reading(id: usize, core: Option<i32>) -> Reading {
    Reading {
        id,
        package: Some(0),
        core,
        capacity: None,
        caches: vec![
            Cache { level: Some(1), size: Some("32K".to_string()), shared: vec![id] },
            Cache { level: Some(2), size: Some("1024K".to_string()), shared: vec![id, id ^ 1] },
        ],
    }
}

#[test]
fn linux_reads_caches_and_classes() {
    let rs: Vec<Reading> = (0..4).map(|id| reading(id, Some((id / 2) as i32))).collect();
    let t = linux(String::new(), None, &rs, vec![0, 1], vec![2, 3]);
    assert_eq!(t.cpus[0].l2_kib, Some(1024));
    assert_eq!(t.cpus[0].l2_shared, Some(2));
    assert_eq!(t.cpus[1].class, Some(1));
    assert_eq!(t.cpus[3].class, Some(0));
    assert!(t.notes.is_empty());

    let masked: Vec<Reading> = (0..2).map(|id| reading(id, None)).collect();
    let t = linux(String::new(), None, &masked, Vec::new(), Vec::new());
    assert_eq!(t.cpus[0].core, -1);
    assert!(t.notes[0].contains("no per-CPU topology"));
}

#[test]
fn a_machine_that_nothing_reads_is_counted() {
    let t = Topology::detect(unread("plan9"), 3);
    assert_eq!(t.logical(), 3);
    assert_eq!(t.source, "available_parallelism");
    assert_eq!(t.notes.len(), 2);
    assert!(t.notes[0].contains("no topology reader for plan9"));
}

#[test]
fn kernel_lists_and_sizes_are_read() {
    assert_eq!(parse_range_list("0-2,5\n"), vec![0, 1, 2, 5]);
    assert_eq!(parse_range_list("junk"), Vec::<usize>::new());
    assert_eq!(parse_size_kib("512K"), Some(512));
    assert_eq!(parse_size_kib("2M"), Some(2048));
    assert_eq!(parse_size_kib("big"), None);
}

#[test]
fn pin_lists_print_and_read_back() {
    for list in [vec![0, 1, 2, 3, 8, 9, 10, 11], vec![6, 4, 2, 0], vec![5]] {
        assert_eq!(parse_cpu_list(&fmt_list(&list)), Ok(list));
    }
}

// One record of Windows' processor information.
fn record(rel: u32, head: &[(usize, u8)], count_at: usize, masks: &[(u64, u16)]) -> Vec<u8> {
    let mut b = vec![0u8; count_at + 2 + 16 * masks.len()];
    b[0..4].copy_from_slice(&rel.to_le_bytes());
    let size = b.len() as u32;
    b[4..8].copy_from_slice(&size.to_le_bytes());
    for (at, v) in head {
        b[*at] = *v;
    }
    b[count_at..count_at + 2].copy_from_slice(&(masks.len() as u16).to_le_bytes());
    for (i, (mask, group)) in masks.iter().enumerate() {
        let at = count_at + 2 + 16 * i;
        b[at..at + 8].copy_from_slice(&mask.to_le_bytes());
        b[at + 8..at + 10].copy_from_slice(&group.to_le_bytes());
    }
    b
}

#[test]
fn windows_records_become_processors() {
    let mut b = record(0, &[(9, 1)], 30, &[(0b0011, 0)]);
    b.extend(record(0, &[(9, 0)], 30, &[(0b0100, 0)]));
    b.extend(record(3, &[], 30, &[(0b0111, 0)]));
    // A cache of the second level, of 1 MiB.
    b.extend(record(2, &[(8, 2), (14, 16)], 38, &[(0b0011, 0)]));
    let t = windows("a part".to_string(), Ok(&b));
    assert_eq!(t.cpus.iter().map(|c| c.id).collect::<Vec<_>>(), vec![0, 1, 2]);
    assert_eq!(t.cpus.iter().map(|c| c.core).collect::<Vec<_>>(), vec![0, 0, 1]);
    assert_eq!(t.cpus.iter().map(|c| c.class).collect::<Vec<_>>(), vec![Some(1), Some(1), Some(0)]);
    assert!(t.cpus.iter().all(|c| c.package == 0));
    assert_eq!((t.cpus[0].l2_kib, t.cpus[0].l2_shared), (Some(1024), Some(2)));
    assert_eq!((t.cpus[2].l2_kib, t.cpus[2].l2_shared), (None, None));
    assert!(t.notes.is_empty(), "{:?}", t.notes);
    assert!(t.hybrid());
}

#[test]
fn a_malformed_windows_buffer_is_read_as_far_as_it_goes() {
    let mut b = record(0, &[], 30, &[(1, 0)]);
    b.extend([0, 0, 0, 0, 7, 0, 0, 0]);
    let t = windows(String::new(), Ok(&b));
    assert_eq!(t.cpus.len(), 1);
    assert_eq!(t.cpus[0].package, -1);
    assert!(t.notes[0].contains("malformed"));
    assert!(t.notes[1].contains("no package relations"));
    assert!(t.notes[2].contains("same EfficiencyClass"));
    let t = windows(String::new(), Err("access denied"));
    assert_eq!(t.notes, vec!["GetLogicalProcessorInformationEx failed: access denied"]);
}

#[test]
fn macos_counts_become_processors() {
    let c = Counts {
        logical: 8,
        physical: 4,
        packages: 1,
        l2_kib: Some(4096),
        fast: Some(6),
        efficient: Some(2),
    };
    let t = macos("M".to_string(), &c);
    assert_eq!(t.cpus.iter().map(|c| c.core).collect::<Vec<_>>(), vec![0, 0, 1, 1, 2, 2, 3, 3]);
    assert_eq!(t.notes.len(), 2);
    assert!(t.notes[1].contains("6 logical processors in the fast cluster"));
}

#[test]
fn more_cache_never_makes_a_smaller_batch() {
    let mut last = 0;
    for kib in [64u32, 128, 256, 512, 1024, 2048, 8192] {
        let n = batch::auto(&machine(Some(kib), Some(1), 4, 1), 4).batch;
        assert!(n >= last);
        last = n;
    }
}

#[test]
fn code_is_written_or_run() {
    assert_eq!(CodeW::new(Err("no memory".to_string())).unwrap_err(), "no memory");
    let w = CodeW::new(Ok(0x7f00_0000_0000)).expect("reserved");
    let ask = w.sealing();
    assert!(ask.executable && !ask.writable);
    assert_eq!((ask.addr, ask.len), (0x7f00_0000_0000, REGION_BYTES));
    let maps = "7f0000000000-7f0000080000 r-xp 00000000 00:00 0\n";
    let x = w.seal(Ok(())).expect("sealed");
    assert_eq!(x.protection(Some(maps)).executable, Some(true));
    assert_eq!(x.protection(Some(maps)).writable, Some(false));
    let back = x.unsealing();
    assert!(back.writable && !back.executable);
    let w = x.unseal(Ok(())).expect("unsealed");
    let (why, region) = w.seal(Err("denied".to_string())).expect_err("refused");
    assert_eq!((why.as_str(), region.len), ("denied", REGION_BYTES));
    let w = CodeW::new(Ok(0x1000)).expect("reserved");
    assert_eq!(w.protection(None).writable, None);
}

#[test]
fn every_beginning_of_the_order_covers_the_most_cores() {
    let t = topo(vec![
        cpu(0, 0, 0, Some(1)),
        cpu(1, 0, 0, Some(1)),
        cpu(2, 0, 1, Some(1)),
        cpu(3, 0, 1, Some(1)),
        cpu(4, 0, 2, Some(0)),
        cpu(5, 1, 0, None),
    ]);
    let one = t.one_per_core().unwrap();
    assert_eq!(one, [0, 2, 4, 5]);
    assert_eq!(t.cores_covered(&one), Some(one.len()));
    let order = t.spread();
    assert_eq!(order, [0, 2, 4, 5, 1, 3]);
    for k in 0..=order.len() {
        assert_eq!(t.cores_covered(&order[..k]), Some(k.min(4)), "the first {k}");
    }
}

#[test]
fn a_printed_list_keeps_repeats_and_order() {
    assert_eq!(fmt_list(&[3, 3, 4, 2, 1, 2, 3]), "3,3-4,2,1-3");
    assert_eq!(fmt_list(&[usize::MAX, 0, 1]), format!("{},0-1", usize::MAX));
}

#[test]
fn pin_lists_are_offered_where_they_fit() {
    let plain = topo((0..2).map(|i| cpu(i, 0, i as i32, None)).collect()).render();
    assert!(plain.starts_with("plaine-miner topology\n"));
    assert!(!plain.contains("\n    one thread per core "), "{plain}");
    assert!(!plain.contains("\n    performance cores "), "{plain}");
    assert!(plain.contains("\n    every processor       --threads 2   (the default)\n"), "{plain}");

    let mut cpus: Vec<Cpu> = (0..4).map(|i| cpu(i, 0, (i / 2) as i32, Some(1))).collect();
    cpus.push(cpu(4, 0, 2, Some(0)));
    let t = topo(cpus);
    let text = t.render();
    assert!(t.smt() && t.hybrid());
    assert!(text.contains("\n    one thread per core   --cpu-affinity 0,2,4\n"), "{text}");
    assert!(text.contains("\n    performance cores     --cpu-affinity 0-3\n"), "{text}");
}
