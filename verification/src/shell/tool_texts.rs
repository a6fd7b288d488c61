//! What the harness and the models are told of each tool: what it does, and the
//! JSON schema of its arguments.

use vstd::prelude::*;

verus! {

/// What `echo` does.
pub const ECHO_DESCRIPTION: &'static str =
    "Echo the provided payload unchanged";

/// What `read` does.
pub const READ_DESCRIPTION: &'static str =
    "Reads a file. Defaults to reading the whole file in one call — output is capped at \
     2000 lines / 50 KB. Truncated output keeps the first 1000 and last 1000 lines \
     separated by a literal `...` line. Files over 10 MiB are rejected by an input safety \
     cap before output truncation. Prefer one full read. Pass inclusive \
     `start_line`/`end_line` only to fetch one specific known slice, or `ranges` for up to \
     100 slices; range chunks are separated by one empty line and may overlap, but large \
     overlapping multi-range expansions can be rejected before rendering to keep memory \
     bounded. `start_line` past EOF errors, while `end_line` past EOF returns available \
     lines. Returned content lines are prefixed by their 1-based line number and a space; \
     CRLF, CR, and missing final line endings are marked after the number, e.g. `2(crlf)`, \
     `3(cr)`, or `4(no_nl)`. Invalid UTF-8 is shown with Unicode replacement characters \
     and an `invalid-utf8` line flag. Lines that would exceed the 50 KB output budget are \
     marker-only, e.g. `1(truncated)`. Truncated results include `truncated: true`, \
     `total_lines`, and `total_bytes`; `valid_utf8: false` is included only when \
     applicable.";

/// The arguments of `read`.
pub const READ_PARAMETERS: &'static str = r#"{
  "type": "object",
  "properties": {
    "path": {
      "type": "string",
      "description": "Path to the file"
    },
    "start_line": {
      "type": "integer",
      "minimum": 1,
      "description": "Optional, 1-based inclusive. Omit to start at line 1 (the default)."
    },
    "end_line": {
      "type": "integer",
      "minimum": 1,
      "description": "Optional, 1-based inclusive. Omit to read to end of file (the default and preferred mode). Set this only to continue past a previous truncation, or to fetch a known specific slice of a large file — do NOT pre-slice an ordinary file you haven't already established is large."
    },
    "ranges": {
      "type": "array",
      "description": "Optional list of inclusive line ranges to read. Cannot be combined with top-level start_line or end_line. Each chunk is separated by one empty line in the output, and overlapping ranges are returned redundantly. Requests whose overlapping ranges would expand into too much rendered content are rejected before rendering.",
      "minItems": 1,
      "maxItems": 100,
      "items": {
        "type": "object",
        "properties": {
          "start_line": {
            "type": "integer",
            "minimum": 1,
            "description": "1-based inclusive start line to read."
          },
          "end_line": {
            "type": "integer",
            "minimum": 1,
            "description": "1-based inclusive end line to read."
          }
        },
        "required": [
          "start_line",
          "end_line"
        ],
        "additionalProperties": false
      }
    }
  },
  "required": [
    "path"
  ],
  "additionalProperties": false
}"#;

/// What `edit` does.
pub const EDIT_DESCRIPTION: &'static str =
    "Edit a file using line-oriented replacements. Each edit fully replaces the 1-based \
     half-open `start_line`..`end_line_exclusive` range with `newText`. `start_line` is \
     included and `end_line_exclusive` is excluded. Empty insertion ranges use `start_line \
     == end_line_exclusive`; for example, `1..<1` inserts at the start of the file and \
     `total_lines + 1 ..< total_lines + 1` appends at EOF. All ranges use the original \
     file numbering as if applied simultaneously. Non-empty replacements are kept as whole \
     lines. Ranges must be non-overlapping. Missing files are treated as empty and missing \
     parent directories are created. Per-edit `context_line` must exactly match the \
     original line immediately before `start_line`; use an empty context_line when \
     `start_line` is 1. EOF appends use the original last line as context when the file is \
     non-empty.";

/// The arguments of `edit`.
pub const EDIT_PARAMETERS: &'static str = r#"{
  "type": "object",
  "properties": {
    "path": {
      "type": "string",
      "description": "Path to the file"
    },
    "edits": {
      "type": "array",
      "description": "One or more line ranges to replace in the original file",
      "minItems": 1,
      "maxItems": 100,
      "items": {
        "type": "object",
        "properties": {
          "start_line": {
            "type": "integer",
            "minimum": 1,
            "description": "1-based included start line or insertion slot. Use 1 for the start of the file. To append at EOF, use total_lines + 1. Use together with end_line_exclusive."
          },
          "end_line_exclusive": {
            "type": "integer",
            "minimum": 1,
            "description": "1-based excluded end line or insertion slot. Empty insertion ranges have end_line_exclusive == start_line. To replace read output lines A through B, use start_line A and end_line_exclusive B + 1. Use together with start_line."
          },
          "newText": {
            "type": "string",
            "description": "Replacement text. Non-empty replacements stay whole-line."
          },
          "context_line": {
            "type": "string",
            "description": "Exact expected content of the original line immediately before start_line, including spaces and tabs. Use an empty context_line when start_line is 1. Appends at EOF use the original last line as context when the file is non-empty. If it does not match, the edit fails and returns current line-numbered context around the expected context line."
          }
        },
        "required": [
          "start_line",
          "end_line_exclusive",
          "newText",
          "context_line"
        ],
        "additionalProperties": false
      }
    }
  },
  "required": [
    "path",
    "edits"
  ],
  "additionalProperties": false
}"#;

/// What `apply_patch` does.
pub const APPLY_PATCH_DESCRIPTION: &'static str =
    "Use the `apply_patch` tool to edit files.";

/// What `grep` does.
pub const GREP_DESCRIPTION: &'static str =
    "Search file contents for a pattern using ripgrep. Patterns are literal by default; \
     regex metacharacters like `|` require `regex: true`. Returns matching lines with file \
     paths and line numbers. Respects .gitignore. Output is truncated at `limit` matches \
     or 50KB. Long lines are truncated to 500 chars.";

/// The arguments of `grep`.
pub const GREP_PARAMETERS: &'static str = r#"{
  "type": "object",
  "properties": {
    "pattern": {
      "type": "string",
      "description": "Search pattern. Treated as a literal string by default. Set `regex: true` to interpret as a regex."
    },
    "path": {
      "type": "string",
      "description": "Directory or file to search (default: current directory)"
    },
    "glob": {
      "type": "string",
      "description": "Filter files by glob pattern, e.g. '*.ts' or '**/*.rs'"
    },
    "ignoreCase": {
      "type": "boolean",
      "description": "Case-insensitive search (default: false)"
    },
    "regex": {
      "type": "boolean",
      "description": "Interpret `pattern` as a regex instead of a literal string (default: false)"
    },
    "context": {
      "type": "integer",
      "description": "Number of lines to show before and after each match (default: 0, max: 20)"
    },
    "limit": {
      "type": "integer",
      "description": "Maximum number of matches to return (default: 100, max: 2000)"
    }
  },
  "required": [
    "pattern"
  ],
  "additionalProperties": false
}"#;

/// What `find` does.
pub const FIND_DESCRIPTION: &'static str =
    "Search for files by glob pattern. Returns only file paths (directories are never \
     included, even with '**/*') relative to the search directory. Respects .gitignore. \
     Output is truncated at `limit` results or 50KB. Use the ls tool if you want to see \
     directory entries.";

/// The arguments of `find`.
pub const FIND_PARAMETERS: &'static str = r#"{
  "type": "object",
  "properties": {
    "pattern": {
      "type": "string",
      "description": "Glob pattern matched against file paths relative to `path`. `**` matches any number of intermediate directories, including zero — so `**/*.rs` finds both top-level `a.rs` and nested `src/a.rs`. Directories are not returned, even with `**/*`."
    },
    "path": {
      "type": "string",
      "description": "Directory to search (default: current directory)"
    },
    "limit": {
      "type": "integer",
      "description": "Maximum number of results to return (default: 1000, max: 2000)"
    }
  },
  "required": [
    "pattern"
  ],
  "additionalProperties": false
}"#;

/// What `ls` does.
pub const LS_DESCRIPTION: &'static str =
    "List directory contents. Returns entries sorted alphabetically, with '/' suffix for \
     directories. Includes dotfiles. Output lines are prefixed with 1-based entry numbers \
     plus flags such as `escaped`, `invalid-utf8`, or `truncated`; output is capped at \
     `limit` entries, 2000 lines, or 50KB with standard truncation headers. When \
     `limit_reached` is true, entries are a bounded filesystem-order sample sorted for \
     display, not a complete alphabetic prefix.";

/// The arguments of `ls`.
pub const LS_PARAMETERS: &'static str = r#"{
  "type": "object",
  "properties": {
    "path": {
      "type": "string",
      "description": "Directory to list (default: current directory)"
    },
    "limit": {
      "type": "integer",
      "minimum": 1,
      "description": "Maximum number of entries to return (default: 500, max: 2001)"
    }
  },
  "additionalProperties": false
}"#;

/// What `cd` does.
pub const CD_DESCRIPTION: &'static str =
    "Change the remembered working directory for this shell extension instance.";

/// The arguments of `cd`.
pub const CD_PARAMETERS: &'static str = r#"{
  "type": "object",
  "properties": {
    "path": {
      "type": "string",
      "description": "Directory to switch to"
    }
  },
  "required": [
    "path"
  ],
  "additionalProperties": false
}"#;

/// What `shell` does.
pub const SHELL_DESCRIPTION: &'static str =
    "Execute a shell command via `sh -c`. When directory locking is enabled, commands are \
     inferred read-write only while the agent holds a matching `dir_lock`; otherwise they \
     are read-only. When directory locking is disabled, shell commands run read-write. \
     Non-zero exits and timeouts are returned as structured command results with output \
     details. Output is capped at 2000 lines / 50 KB; truncated output keeps the first \
     1000 and last 1000 lines separated by a literal `...` line. Output lines are prefixed \
     with `out ` for stdout or `err ` for stderr; missing trailing newlines are marked, \
     e.g. `out(no_nl)`; CRLF and CR line endings are marked as `out(crlf)` or `out(cr)`. \
     Invalid UTF-8 is shown with Unicode replacement characters and an `invalid-utf8` line \
     flag. Lines that would exceed the 50 KB output budget are marker-only, e.g. \
     `err(truncated)`. Truncated results include `truncated: true`, `total_lines`, and \
     `total_bytes`. Commands taking longer than 5 seconds include duration metadata. \
     Prefer dedicated tools like `read`, `grep`, and `find` when they fit.";

/// The arguments of `shell`.
pub const SHELL_PARAMETERS: &'static str = r#"{
  "type": "object",
  "properties": {
    "command": {
      "type": "string",
      "description": "The shell command to execute"
    },
    "timeout": {
      "type": "integer",
      "minimum": 0,
      "description": "Timeout in seconds. The command is killed if it exceeds this. Default: 120"
    },
    "cwd": {
      "type": "string",
      "description": "Optional working directory for the command"
    }
  },
  "required": [
    "command"
  ],
  "additionalProperties": false
}"#;

/// What `gpt_shell` does.
pub const GPT_SHELL_DESCRIPTION: &'static str =
    "Run a shell command. Output is capped at 2000 lines / 50 KB; Output lines are \
     prefixed with `out ` for stdout or `err ` for stderr; missing trailing newlines are \
     marked with `(no_nl)`. For file changes, prefer apply_patch.";

/// The arguments of `gpt_shell`.
pub const GPT_SHELL_PARAMETERS: &'static str = r#"{
  "type": "object",
  "properties": {
    "command": {
      "type": "string",
      "description": "The shell command to execute"
    },
    "timeout": {
      "type": "integer",
      "description": "Timeout in seconds. The command is killed if it exceeds this. Default: 120"
    },
    "cwd": {
      "type": "string",
      "description": "Optional working directory for the command"
    }
  },
  "required": [
    "command"
  ],
  "additionalProperties": false
}"#;

/// What `dir_lock` does.
pub const DIR_LOCK_DESCRIPTION: &'static str =
    "Acquire or release an ext-shell directory update lock. Disabled by default; set \
     ext-shell config `dir_lock.enable` to true to opt in. Commands are `update` and \
     `unlock`, and `directory` must be an existing directory. `unlock` normally releases \
     the caller's lock; pass `owner_agent_id` to release an abandoned lock held by another \
     agent.";

/// The arguments of `dir_lock`.
pub const DIR_LOCK_PARAMETERS: &'static str = r#"{
  "type": "object",
  "properties": {
    "command": {
      "type": "string",
      "enum": [
        "update",
        "unlock"
      ],
      "description": "Lock or unlock the directory for updates"
    },
    "directory": {
      "type": "string",
      "description": "Existing directory to canonicalize before locking"
    },
    "owner_agent_id": {
      "type": "string",
      "description": "Optional owner agent id for force-unlocking a manual lock held by another agent"
    }
  },
  "required": [
    "command",
    "directory"
  ],
  "additionalProperties": false
}"#;

} // verus!
