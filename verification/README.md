# lensup

`lensup <repo_name> --from YYYY-MM [--to YYYY-MM] [--limit N]` reads the
`git log` of a repository, has a language model analyse each commit of the
chosen months, and writes a Markdown report under `reports/`: a summary with
counts per category and of merge advice, a table with a one-sentence summary
per commit, and the detailed analyses grouped by category.

## Environment

- `DEEPSEEK_API_KEY`, `LLM_BASE_URL`: the model's key and URL (required);
- `REPO_PATH`: the directory that holds the repositories (required);
- `COMMIT_LIMIT`: at most this many commits are analysed (optional; the
  default 0 sets no limit); `--limit N` and `ANALYSIS_LIMIT` override it;
- `ANALYSIS_FROM`, `ANALYSIS_TO`: the months when `--from`/`--to` are not
  given;
- `RUST_LOG`: the log level.

## Layout

- `src/` is the library. Each module states what its functions compute as
  spec functions over `Seq<char>`, and the code is proved against them:
  - `text`, `decimal`: the string and number handling the rest builds on;
  - `month`: month arguments, month indices, the report's range and labels;
  - `commits`: reading the log (dates through `chrono`) and choosing the
    commits of the report;
  - `category`, `analysis`: the category, summary, impact and merge advice
    that a model's analysis gives a commit;
  - `item`, `report`: a commit's report item and detailed entry;
  - `groups`: the commits grouped by category, in the order of the names;
  - `table`, `render`: the summary, the table rows and the report's text;
  - `reply`: reading the model's replies (through `serde_json`) and the
    retry rule of summary requests.
- `app/main.rs` is the program: command line, environment, logging, `git`,
  HTTP requests and the report file.
- `tests/` runs the library on concrete inputs.
