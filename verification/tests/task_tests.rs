use packo::contents::ExtractTaskEntry;
use packo::task::{
    child_error_message, command_not_found_message, compress_failure_message,
    extract_task_error_message, push_recent_line, status_text, total_entry_bytes,
    update_compress_progress_from_line, ExtractTaskError, ExtractTaskState, TaskKind, TaskStatus,
    WaitDecision,
};

fn item(path: &str, size: u64) -> ExtractTaskEntry {
    ExtractTaskEntry {
        path: path.to_string(),
        display_path: path.trim_end_matches('/').to_string(),
        size,
        is_dir: false,
        is_unsafe_path: false,
    }
}

#[test]
fn statuses_have_words() {
    assert_eq!(status_text(TaskStatus::Running), "running");
    assert_eq!(status_text(TaskStatus::Canceling), "canceling");
    assert_eq!(status_text(TaskStatus::Completed), "completed");
    assert_eq!(extract_task_error_message(ExtractTaskError::Canceled), "操作已取消。");
    assert_eq!(extract_task_error_message(ExtractTaskError::Failed("bad".to_string())), "bad");
}

#[test]
fn new_tasks_start_empty() {
    let s = ExtractTaskState::new(3, 30, "/out".to_string());
    assert_eq!(s.status, TaskStatus::Running);
    assert_eq!(s.completed, 0);
    assert_eq!(s.message, "正在准备解压。");
    assert!(!s.is_finished());
    assert_eq!(s.wait_decision(), WaitDecision::Proceed);
}

#[test]
fn pause_resume_and_cancel_drive_the_worker() {
    let mut s = ExtractTaskState::new(2, 10, "/out".to_string());
    assert_eq!(s.attach_child(77), false);
    assert_eq!(s.request_pause(TaskKind::Extract), Some(77));
    assert_eq!(s.status, TaskStatus::Paused);
    assert_eq!(s.message, "解压已暂停。");
    assert_eq!(s.wait_decision(), WaitDecision::Wait);
    assert_eq!(s.request_resume(TaskKind::Compress), Some(77));
    assert_eq!(s.status, TaskStatus::Running);
    assert_eq!(s.message, "正在继续压缩。");
    assert_eq!(s.wait_decision(), WaitDecision::Proceed);
    s.request_pause(TaskKind::Extract);
    assert_eq!(s.request_cancel(TaskKind::Extract), Some(77));
    assert_eq!(s.status, TaskStatus::Canceling);
    assert!(!s.pause_requested);
    assert_eq!(s.wait_decision(), WaitDecision::Cancel);
    s.detach_child();
    assert_eq!(s.child_pid, None);
    s.finish(TaskKind::Extract, Err(ExtractTaskError::Canceled));
    assert_eq!(s.status, TaskStatus::Canceled);
    assert_eq!(s.message, "解压已取消。");
    // An ended task ignores further requests.
    assert_eq!(s.request_resume(TaskKind::Extract), None);
    assert_eq!(s.status, TaskStatus::Canceled);
    assert_eq!(s.request_pause(TaskKind::Extract), None);
    assert_eq!(s.status, TaskStatus::Canceled);
}

#[test]
fn pausing_before_a_child_starts_stops_it_at_once() {
    let mut s = ExtractTaskState::new(1, 1, "/out".to_string());
    s.request_pause(TaskKind::Compress);
    assert_eq!(s.message, "压缩已暂停。");
    assert!(s.attach_child(5));
    assert!(s.attach_compress_child(6));
    assert_eq!(s.status, TaskStatus::Running);
    assert_eq!(s.message, "正在压缩。");
}

#[test]
fn entries_count_bytes_and_items() {
    let mut s = ExtractTaskState::new(2, 10, "/out".to_string());
    s.begin_entry(TaskKind::Extract, "a.txt".to_string(), 4);
    assert_eq!(s.message, "正在解压 1 / 2");
    assert_eq!(s.current_total_bytes, 4);
    s.observe_current_size(Some(9));
    assert_eq!(s.current_bytes, 4);
    let p = s.progress("t1");
    assert_eq!(p.task_id, "t1");
    assert_eq!(p.status, "running");
    assert_eq!(p.completed_bytes, 4);
    s.complete_entry(String::new());
    assert_eq!(s.completed, 1);
    assert_eq!(s.completed_bytes, 4);
    assert_eq!(s.current_bytes, 0);
    assert_eq!(s.message, "正在解压 1 / 2");
    s.begin_entry(TaskKind::Compress, "empty".to_string(), 0);
    assert_eq!(s.message, "正在压缩 2 / 2");
    assert_eq!(s.current_total_bytes, 1);
    s.complete_entry("done".to_string());
    s.complete_entry(String::new());
    assert_eq!(s.completed, 2);
    assert_eq!(s.message, "done");
    s.finish(TaskKind::BatchExtract, Ok(()));
    assert_eq!(s.status, TaskStatus::Completed);
    assert_eq!(s.completed_bytes, 10);
    assert_eq!(s.message, "批量解压完成，已保存到：/out");
    assert!(s.is_finished());
    let p = s.progress("t1");
    assert_eq!(p.status, "completed");
    assert_eq!(p.completed, 2);
    assert_eq!(p.completed_bytes, 10);
}

#[test]
fn failures_keep_their_error() {
    let mut s = ExtractTaskState::new(1, 1, "/out".to_string());
    s.finish(TaskKind::Extract, Err(ExtractTaskError::Failed("boom".to_string())));
    assert_eq!(s.status, TaskStatus::Failed);
    assert_eq!(s.error.as_deref(), Some("boom"));
    assert_eq!(s.message, "boom");
    assert_eq!(s.progress("x").error.as_deref(), Some("boom"));
}

#[test]
fn a_canceled_task_stays_canceled_when_its_worker_ends_well() {
    let mut s = ExtractTaskState::new(1, 1, "/out".to_string());
    s.finish(TaskKind::Extract, Err(ExtractTaskError::Canceled));
    s.finish(TaskKind::Extract, Ok(()));
    assert_eq!(s.status, TaskStatus::Canceled);
    assert_eq!(s.completed, 0);
}

#[test]
fn solid_blocks_and_streams() {
    let entries = vec![item("a", 0), item("b", 5)];
    assert_eq!(total_entry_bytes(&entries), 6);
    let mut s = ExtractTaskState::new(3, 100, "/out".to_string());
    s.begin_solid_block(&entries);
    assert_eq!(s.current_item, "固实压缩数据块");
    assert_eq!(s.current_total_bytes, 6);
    assert_eq!(s.message, "正在固实压缩 2 个文件");
    s.complete_entries(&entries);
    assert_eq!(s.completed, 2);
    assert_eq!(s.completed_bytes, 6);
    s.complete_entries(&entries);
    assert_eq!(s.completed, 3);
    s.begin_single_stream("note.txt".to_string(), Some(0));
    assert_eq!(s.current_total_bytes, 1);
    assert_eq!(s.message, "正在解压单文件压缩流。");
    s.begin_batch_archive("b.zip");
    assert_eq!(s.message, "正在解压 b.zip");
}

#[test]
fn compress_tasks_follow_the_tool_output() {
    let mut s = ExtractTaskState::new_compress(2, 10, "/out/a.zip".to_string(), "a.zip".to_string());
    assert_eq!(s.message, "正在创建压缩任务。");
    assert_eq!(s.current_total_bytes, 10);
    s.begin_compress_plan(0, 2, "a.zip", 0);
    assert_eq!(s.message, "正在压缩任务 1 / 2：a.zip");
    assert_eq!(s.current_total_bytes, 1);
    s.begin_compress_plan(0, 1, "a.zip", 7);
    assert_eq!(s.message, "正在压缩。");

    s.observe_output_size(Some(50));
    assert_eq!(s.completed_bytes, 9);
    s.observe_output_size(Some(3));
    assert_eq!(s.completed_bytes, 9);

    let mut s = ExtractTaskState::new_compress(2, 10, "/out/a.zip".to_string(), "a.zip".to_string());
    let entries = vec![item("dir/", 0), item("dir/f.txt", 4)];
    let mut seen: Vec<Vec<char>> = Vec::new();
    update_compress_progress_from_line(&mut s, "  adding: dir/f.txt (deflated 5%)", &entries, &mut seen);
    assert_eq!(s.current_item, "dir/f.txt");
    assert_eq!(s.completed, 1);
    assert_eq!(s.completed_bytes, 4);
    assert_eq!(s.message, "正在压缩 1 / 2");
    update_compress_progress_from_line(&mut s, "updating: dir/f.txt", &entries, &mut seen);
    assert_eq!(s.completed, 1);
    update_compress_progress_from_line(&mut s, "a other.bin", &entries, &mut seen);
    assert_eq!(s.current_item, "other.bin");
    assert_eq!(s.completed, 1);
    update_compress_progress_from_line(&mut s, "nothing to see", &entries, &mut seen);
    assert_eq!(s.current_item, "other.bin");
    update_compress_progress_from_line(&mut s, "a dir/", &entries, &mut seen);
    assert_eq!(s.completed, 2);
    assert_eq!(s.current_item, "dir");
    assert_eq!(seen.len(), 2);
}

#[test]
fn tool_errors_are_reported() {
    assert_eq!(command_not_found_message("zip"), "找不到命令：zip。请确认系统已安装对应压缩工具。");
    assert_eq!(child_error_message("  broken\n", "bsdtar"), "broken");
    assert_eq!(child_error_message("  ", "bsdtar"), "bsdtar 执行失败。");

    let mut recent: Vec<String> = Vec::new();
    for i in 0..14 {
        push_recent_line(&mut recent, format!("line {i}"));
    }
    assert_eq!(recent.len(), 12);
    assert_eq!(recent[0], "line 2");
    assert_eq!(recent[11], "line 13");

    let lines = vec!["first".to_string(), "   ".to_string(), "second".to_string()];
    assert_eq!(compress_failure_message(&lines, "zip"), "first\nsecond");
    assert_eq!(compress_failure_message(&Vec::new(), "zip"), "zip 执行失败。");
}

#[test]
fn progress_only_moves_forward() {
    let mut s = ExtractTaskState::new(3, 100, "/out".to_string());
    s.observe_output_size(Some(40));
    assert_eq!(s.completed_bytes, 40);
    s.observe_output_size(Some(10));
    assert_eq!(s.completed_bytes, 40);
    s.begin_entry(TaskKind::Compress, "a".to_string(), 5);
    s.complete_entry(String::new());
    assert_eq!(s.completed_bytes, 45);
    s.complete_entries(&[item("b", 500)]);
    assert_eq!(s.completed_bytes, 100);
    assert_eq!(s.completed, 2);
}

#[test]
fn sizes_are_checked_before_they_are_added() {
    assert!(packo::compress::entries_size_fits(&[item("a", u64::MAX), item("b", 0)]));
    assert!(!packo::compress::entries_size_fits(&[item("a", u64::MAX), item("b", 1)]));
    assert!(packo::task::entry_bytes_fit(&[item("a", u64::MAX - 1), item("b", 0)]));
    assert!(!packo::task::entry_bytes_fit(&[item("a", u64::MAX), item("b", 0)]));
}

#[test]
fn steps_that_are_not_entries_are_shown() {
    let mut s = ExtractTaskState::new_compress(1, 10, "/o/a.7z".to_string(), "a.7z".to_string());
    s.begin_step("a.7z".to_string(), 0, "正在写入 7Z 分卷。");
    assert_eq!(s.current_item, "a.7z");
    assert_eq!(s.current_total_bytes, 1);
    assert_eq!(s.message, "正在写入 7Z 分卷。");
    assert_eq!(s.status, TaskStatus::Running);
}

#[test]
fn every_compress_run_ends_settled() {
    for outcome in [
        Ok(()),
        Err(ExtractTaskError::Canceled),
        Err(ExtractTaskError::Failed("磁盘已满".to_string())),
    ] {
        let mut s = ExtractTaskState::new_compress(2, 20, "/out".to_string(), "a.zip".to_string());
        s.begin_compress_plan(0, 2, "a.zip", 10);
        assert!(!s.attach_compress_child(41));
        s.request_pause(TaskKind::Compress);
        assert!(!s.is_finished());
        s.request_resume(TaskKind::Compress);
        let failed = matches!(outcome, Err(ExtractTaskError::Failed(_)));
        let done = outcome.is_ok();
        s.finish(TaskKind::Compress, outcome);
        assert!(s.is_finished());
        assert_eq!(s.child_pid, None);
        if done {
            assert_eq!(s.status, TaskStatus::Completed);
            assert_eq!((s.completed, s.completed_bytes, s.current_bytes), (2, 20, 0));
            assert!(s.current_item.is_empty());
        } else if failed {
            assert_eq!(s.status, TaskStatus::Failed);
            assert_eq!(s.error.as_deref(), Some(s.message.as_str()));
        } else {
            assert_eq!(s.status, TaskStatus::Canceled);
        }
    }
}
