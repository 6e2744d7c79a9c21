# anime_cluster

Two systems in one verified library.

- **Anime dataset analysis.** A CSV of anime views is split into shards,
  each shard is counted, the counts are merged, and the most viewed genres
  and best scored animes are written out as JSON. The library holds the
  line-by-line splitting decisions (`dataset_splitter`), the row counting
  (`shard_processor`), the merge (`dataset_processor`), the genre ranking
  (`data_transformer`) and the command line checks (`args`).
- **Enterprise spending cluster.** Nodes keep each enterprise's limits and
  usage (`cluster::repository`, `cluster::repository_manager`), elect a
  leader (`cluster::election`), detect failed nodes (`cluster::heartbeat`),
  and serialise updates of an enterprise through leader-granted locks
  (`cluster::lock_manager`, `cluster::transaction_manager`). Enterprises
  talk to the cluster through a console of commands (`enterprise`).

Every handler is written as a transition from a state and a message to the
new state and the messages to send, so that the decisions are verified;
`app/` performs the file work, the threads and the printing for the dataset
program.

`src/` is checked with Verus; `tests/` holds ordinary Rust tests of the
library.
