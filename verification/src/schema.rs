//! The store: its tables, what it starts with, and how it is opened.
use crate::exchange::{SqlValue, Statement, StatementView};
use crate::fields;
use crate::json;
use crate::store;
use vstd::prelude::*;

verus! {

/// The tables of the store and their indexes, as far as they are not there yet.
pub const SCHEMA: &'static str = "
        CREATE TABLE IF NOT EXISTS projects (
          id TEXT PRIMARY KEY,
          name TEXT NOT NULL,
          workspace_path TEXT,
          next_task_number INTEGER NOT NULL DEFAULT 1 CHECK (next_task_number > 0),
          archived_at TEXT,
          created_at TEXT NOT NULL,
          updated_at TEXT NOT NULL
        );
        CREATE INDEX IF NOT EXISTS projects_archived_created
          ON projects(archived_at, created_at, id);

        CREATE TABLE IF NOT EXISTS tasks (
          id TEXT PRIMARY KEY,
          identifier TEXT NOT NULL UNIQUE,
          project_id TEXT NOT NULL REFERENCES projects(id),
          title TEXT NOT NULL,
          description TEXT NOT NULL DEFAULT '',
          status TEXT NOT NULL CHECK (status IN (
            'backlog', 'todo', 'in_progress', 'in_review', 'blocked', 'done', 'canceled'
          )),
          priority TEXT NOT NULL CHECK (priority IN ('none', 'urgent', 'high', 'medium', 'low')),
          labels TEXT NOT NULL DEFAULT '[]',
          sort_order REAL NOT NULL,
          thread_id TEXT,
          creator_type TEXT NOT NULL DEFAULT 'user',
          creator_id TEXT NOT NULL DEFAULT 'local-user',
          creator_name TEXT NOT NULL DEFAULT 'local user',
          creator_avatar_url TEXT,
          assignee_type TEXT NOT NULL DEFAULT 'user' CHECK (assignee_type IN ('user', 'agent')),
          assignee_id TEXT NOT NULL DEFAULT 'local-user',
          assignee_name TEXT NOT NULL DEFAULT 'local user',
          assignee_avatar_url TEXT,
          workflow_id TEXT,
          git_branch TEXT,
          worktree_path TEXT,
          worktree_branch TEXT,
          due_date TEXT,
          recurrence_interval INTEGER,
          recurrence_unit TEXT,
          archived_at TEXT,
          version INTEGER NOT NULL DEFAULT 1 CHECK (version > 0),
          created_at TEXT NOT NULL,
          updated_at TEXT NOT NULL
        );
        CREATE INDEX IF NOT EXISTS tasks_project_status_sort
          ON tasks(project_id, archived_at, status, sort_order, created_at);

        CREATE TABLE IF NOT EXISTS comments (
          id TEXT PRIMARY KEY,
          task_id TEXT NOT NULL REFERENCES tasks(id) ON DELETE CASCADE,
          body TEXT NOT NULL,
          thread_id TEXT,
          author_type TEXT NOT NULL DEFAULT 'user',
          author_id TEXT NOT NULL,
          author_name TEXT NOT NULL,
          author_avatar_url TEXT,
          version INTEGER NOT NULL DEFAULT 1 CHECK (version > 0),
          created_at TEXT NOT NULL,
          updated_at TEXT NOT NULL
        );
        CREATE INDEX IF NOT EXISTS comments_task_created
          ON comments(task_id, created_at, id);

        CREATE TABLE IF NOT EXISTS attachments (
          id TEXT PRIMARY KEY,
          task_id TEXT NOT NULL REFERENCES tasks(id) ON DELETE CASCADE,
          comment_id TEXT REFERENCES comments(id) ON DELETE CASCADE,
          filename TEXT NOT NULL,
          content_type TEXT NOT NULL,
          size INTEGER NOT NULL CHECK (size >= 0),
          created_at TEXT NOT NULL
        );
        CREATE INDEX IF NOT EXISTS attachments_task_created
          ON attachments(task_id, created_at, id);
        CREATE INDEX IF NOT EXISTS attachments_comment_created
          ON attachments(comment_id, created_at, id);

        CREATE TABLE IF NOT EXISTS workflow_workspaces (
          project_id TEXT PRIMARY KEY REFERENCES projects(id) ON DELETE CASCADE,
          workspace TEXT NOT NULL,
          version INTEGER NOT NULL DEFAULT 1 CHECK (version > 0),
          updated_at TEXT NOT NULL
        );

        CREATE TABLE IF NOT EXISTS ai_chat_threads (
          id TEXT PRIMARY KEY,
          title TEXT NOT NULL,
          status TEXT NOT NULL CHECK (status IN ('idle', 'running', 'failed')),
          origin_project_id TEXT NOT NULL,
          origin_project_name TEXT NOT NULL,
          origin_workspace_path TEXT NOT NULL,
          origin_issue_id TEXT,
          origin_issue_identifier TEXT,
          codex_thread_id TEXT,
          model TEXT NOT NULL,
          reasoning_effort TEXT NOT NULL,
          sandbox TEXT NOT NULL CHECK (sandbox IN (
            'read-only', 'workspace-write', 'danger-full-access'
          )),
          created_at TEXT NOT NULL,
          updated_at TEXT NOT NULL
        );
        CREATE INDEX IF NOT EXISTS ai_chat_threads_updated
          ON ai_chat_threads(updated_at DESC, id);

        CREATE TABLE IF NOT EXISTS ai_chat_runs (
          id TEXT PRIMARY KEY,
          thread_id TEXT NOT NULL REFERENCES ai_chat_threads(id) ON DELETE CASCADE,
          status TEXT NOT NULL CHECK (status IN (
            'running', 'completed', 'failed', 'interrupted'
          )),
          exit_code INTEGER,
          error TEXT,
          started_at TEXT NOT NULL,
          finished_at TEXT
        );
        CREATE INDEX IF NOT EXISTS ai_chat_runs_thread_started
          ON ai_chat_runs(thread_id, started_at, id);
        CREATE UNIQUE INDEX IF NOT EXISTS ai_chat_runs_one_active
          ON ai_chat_runs(thread_id)
          WHERE status = 'running';

        CREATE TABLE IF NOT EXISTS ai_chat_events (
          id TEXT PRIMARY KEY,
          thread_id TEXT NOT NULL REFERENCES ai_chat_threads(id) ON DELETE CASCADE,
          run_id TEXT REFERENCES ai_chat_runs(id) ON DELETE CASCADE,
          type TEXT NOT NULL,
          role TEXT NOT NULL CHECK (role IN ('user', 'assistant', 'activity', 'error')),
          content TEXT NOT NULL,
          data TEXT,
          created_at TEXT NOT NULL
        );
        CREATE INDEX IF NOT EXISTS ai_chat_events_thread_created
          ON ai_chat_events(thread_id, created_at, id);

        CREATE TABLE IF NOT EXISTS task_relations (
          relation_type TEXT NOT NULL CHECK (relation_type IN ('parent', 'blocks', 'related')),
          source_task_id TEXT NOT NULL REFERENCES tasks(id) ON DELETE CASCADE,
          target_task_id TEXT NOT NULL REFERENCES tasks(id) ON DELETE CASCADE,
          created_at TEXT NOT NULL,
          CHECK (source_task_id <> target_task_id),
          CHECK (relation_type <> 'related' OR source_task_id < target_task_id),
          PRIMARY KEY (relation_type, source_task_id, target_task_id)
        );
        CREATE INDEX IF NOT EXISTS task_relations_target
          ON task_relations(relation_type, target_task_id);
        CREATE UNIQUE INDEX IF NOT EXISTS task_relations_one_parent
          ON task_relations(target_task_id)
          WHERE relation_type = 'parent';
        ";

/// The name of the project that is always there.
pub const DEFAULT_PROJECT_NAME: &'static str = "\u{65e0}\u{9879}\u{76ee}";

pub const SEED_PROJECT: &'static str = "INSERT INTO projects (id, name, workspace_path, next_task_number, created_at, updated_at)
         VALUES (?1, ?2, NULL, 1, strftime('%Y-%m-%dT%H:%M:%fZ', 'now'), strftime('%Y-%m-%dT%H:%M:%fZ', 'now'))
         ON CONFLICT(id) DO NOTHING";

/// The statement that adds the project which is always there, where it is not there yet.
pub open spec fn seed() -> StatementView {
    store::stated(
        SEED_PROJECT@,
        store::params().push(store::text_param(fields::DEFAULT_PROJECT_ID@)).push(
            store::text_param(DEFAULT_PROJECT_NAME@),
        ),
    )
}

/// Makes the statement that adds the project which is always there.
pub fn seed_statement() -> (r: Statement)
    ensures
        r@ == seed(),
{
    let mut values: Vec<SqlValue> = json::none();
    store::bind_text(&mut values, fields::DEFAULT_PROJECT_ID);
    store::bind_text(&mut values, DEFAULT_PROJECT_NAME);
    store::statement(SEED_PROJECT, values)
}

/// The settings under which the store is opened, in order.
pub open spec fn pragmas() -> Seq<(Seq<char>, Seq<char>)> {
    Seq::empty().push(("foreign_keys"@, "ON"@)).push(("busy_timeout"@, "5000"@)).push(
        ("journal_mode"@, "WAL"@),
    )
}

/// Lists the settings under which the store is opened.
pub fn opening_pragmas() -> (r: Vec<(String, String)>)
    ensures
        r.deep_view() == pragmas(),
{
    let mut settings: Vec<(String, String)> = json::none();
    json::put(&mut settings, ("foreign_keys".to_owned(), "ON".to_owned()));
    json::put(&mut settings, ("busy_timeout".to_owned(), "5000".to_owned()));
    json::put(&mut settings, ("journal_mode".to_owned(), "WAL".to_owned()));
    settings
}

} // verus!
